//! Square root: the representation of `sqrt(x)` is the integer square root of `x.repr * 10^19`,
//! found by Newton's iteration on 256-bit intermediates.
use vstd::prelude::*;

use crate::dec19x19::{scale, Dec19x19, FRAC_SCALE_I128};
use crate::i128_ops::mag;
use crate::mul::mul_repr;
use crate::i128_ops::{digit_count, is_digit_count, lemma_pow10_positive, pow10, pow10_i128};
use crate::ops::{CheckedSqrt, UncheckedSqrt};
use crate::wide::{checked_div_wide, mul_wide, narrow, word, Wide};

verus! {

/// `r` is the integer square root of `n`: the greatest integer whose square is at most `n`.
pub open spec fn is_isqrt(n: int, r: int) -> bool {
    &&& r >= 0
    &&& r * r <= n
    &&& n < (r + 1) * (r + 1)
}

pub proof fn lemma_pow10_add(a: nat, b: nat)
    ensures
        pow10(a + b) == pow10(a) * pow10(b),
    decreases a,
{
    if a > 0 {
        lemma_pow10_add((a - 1) as nat, b);
        assert(pow10(a + b) == 10 * pow10((a - 1 + b) as nat));
        assert(10 * (pow10((a - 1) as nat) * pow10(b)) == (10 * pow10((a - 1) as nat)) * pow10(b))
            by (nonlinear_arith);
    }
}

/// One Newton step never goes below the integer square root.
proof fn lemma_newton_stays_above(n: int, g: int, q: int)
    requires
        g > 0,
        n >= 0,
        q == n / g,
    ensures
        ((g + q) / 2 + 1) * ((g + q) / 2 + 1) > n,
{
    let m = (g + q) / 2 + 1;
    vstd::arithmetic::div_mod::lemma_fundamental_div_mod(n, g);
    vstd::arithmetic::div_mod::lemma_mod_bound(n, g);
    assert(g * (q + 1) > n) by (nonlinear_arith)
        requires
            n == g * q + n % g,
            n % g < g,
    ;
    assert(q + 1 <= 2 * m - g);
    assert(g * (q + 1) <= g * (2 * m - g)) by (nonlinear_arith)
        requires
            g > 0,
            q + 1 <= 2 * m - g,
    ;
    assert(g * (2 * m - g) <= m * m) by (nonlinear_arith);
}

/// Above the integer square root, a Newton step strictly decreases.
proof fn lemma_newton_decreases(n: int, g: int, q: int)
    requires
        g > 0,
        n >= 0,
        q == n / g,
        g * g > n,
    ensures
        (g + q) / 2 < g,
        q < g,
{
    vstd::arithmetic::div_mod::lemma_fundamental_div_mod(n, g);
    vstd::arithmetic::div_mod::lemma_mod_bound(n, g);
    assert(q < g) by (nonlinear_arith)
        requires
            n == g * q + n % g,
            0 <= n % g,
            g * g > n,
            g > 0,
    ;
}

/// The quotient of a Newton step stays close to the root.
proof fn lemma_newton_quotient(n: int, g: int, q: int)
    requires
        g > 0,
        n >= 0,
        q == n / g,
        (g + 1) * (g + 1) > n,
        g <= 100_000_000_000_000_000_000_000_000_000,
    ensures
        0 <= q <= 3 * 100_000_000_000_000_000_000_000_000_000,
{
    vstd::arithmetic::div_mod::lemma_fundamental_div_mod(n, g);
    vstd::arithmetic::div_mod::lemma_mod_bound(n, g);
    assert(0 <= q) by (nonlinear_arith)
        requires
            n == g * q + n % g,
            n % g < g,
            n >= 0,
            g > 0,
    ;
    assert(g * q <= n);
    assert(q <= g + 2) by (nonlinear_arith)
        requires
            g * q <= n,
            (g + 1) * (g + 1) > n,
            g > 0,
    ;
}

/// The integer square root of the 256-bit `n`, for `0 < n` and `n < seed * seed`.
fn isqrt_wide(n: Wide, seed: i128) -> (r: i128)
    requires
        0 < n.value(),
        0 < seed <= 100_000_000_000_000_000_000_000_000_000,
        n.value() < seed * seed,
    ensures
        is_isqrt(n.value(), r as int),
{
    let mut guess: i128 = seed;
    proof {
        assert(seed * seed < (seed + 1) * (seed + 1)) by (nonlinear_arith)
            requires
                seed > 0,
        ;
    }
    loop
        invariant
            0 < guess <= 100_000_000_000_000_000_000_000_000_000,
            0 < n.value(),
            (guess + 1) * (guess + 1) > n.value(),
        decreases guess,
    {
        let ghost nv = n.value();
        proof {
            assert(-word() * word() / 2 < nv) by (nonlinear_arith)
                requires
                    nv > 0,
                    word() > 0,
            ;
        }
        let qw = checked_div_wide(n, guess).unwrap();
        proof {
            lemma_newton_quotient(nv, guess as int, nv / (guess as int));
        }
        let q = narrow(qw).unwrap();
        assert(q == nv / (guess as int));
        let next = (guess + q) / 2;
        if next >= guess {
            proof {
                if guess * guess > nv {
                    lemma_newton_decreases(nv, guess as int, q as int);
                }
            }
            return guess;
        }
        proof {
            lemma_newton_stays_above(nv, guess as int, q as int);
            assert((next + 1) * (next + 1) > nv);
            if next == 0 {
                assert((next + 1) * (next + 1) == 1) by (nonlinear_arith)
                    requires
                        next == 0,
                ;
            }
        }
        guess = next;
    }
}

impl UncheckedSqrt for Dec19x19 {
    open spec fn unchecked_sqrt_defined(self) -> bool {
        self.repr >= 0
    }

    /// The square root, rounded down to the last fractional digit.
    fn unchecked_sqrt(self) -> (r: Self)
        ensures
            is_isqrt(self.repr * 10_000_000_000_000_000_000, r.repr as int),
    {
        if self.repr == 0 {
            return Dec19x19 { repr: 0 };
        }
        let d = digit_count(self.repr);
        let k: u32 = ((d as u32) + 20) / 2;
        proof {
            assert(is_digit_count(self.repr as int, d as int));
            crate::i128_ops::lemma_pow10_monotonic(k as nat, 29);
            crate::i128_ops::lemma_pow10_table();
            lemma_pow10_add(d as nat, 19);
            lemma_pow10_add(k as nat, k as nat);
            crate::i128_ops::lemma_pow10_monotonic((d + 19) as nat, (k + k) as nat);
            lemma_pow10_positive(k as nat);
            assert(self.repr * 10_000_000_000_000_000_000 < pow10(d as nat) * pow10(19))
                by (nonlinear_arith)
                requires
                    0 < self.repr < pow10(d as nat),
                    pow10(19) == 10_000_000_000_000_000_000,
            ;
        }
        let seed = pow10_i128(k);
        let n = mul_wide(self.repr, FRAC_SCALE_I128);
        Dec19x19 { repr: isqrt_wide(n, seed) }
    }
}

impl CheckedSqrt for Dec19x19 {
    /// The square root, or `None` for a negative value.
    fn checked_sqrt(self) -> (r: Option<Self>)
        ensures
            self.repr < 0 ==> r is None,
            self.repr >= 0 ==> r is Some && is_isqrt(
                self.repr * 10_000_000_000_000_000_000,
                r->0.repr as int,
            ),
    {
        if self.repr < 0 {
            None
        } else {
            Some(self.unchecked_sqrt())
        }
    }
}

/// The square of a square root falls short of the value by at most one step, for values
/// below `0.25`. (Above, the shortfall can grow with the root: for `MAX` it is about
/// `2 * 10^9` steps.)
pub proof fn lemma_sqrt_squared(x: i128, r: i128)
    requires
        x >= 0,
        is_isqrt(x * scale(), r as int),
        x * scale() < (scale() / 2) * (scale() / 2),
    ensures
        0 <= x - mul_repr(r as int, r as int) <= 1,
{
    let s = scale();
    let (xi, ri) = (x as int, r as int);
    assert(ri < s / 2) by (nonlinear_arith)
        requires
            ri >= 0,
            ri * ri <= xi * s,
            xi * s < (s / 2) * (s / 2),
            s > 0,
    ;
    assert(mag(ri) * mag(ri) == ri * ri);
    let q = ri * ri / s;
    assert(q <= xi) by (nonlinear_arith)
        requires
            q == ri * ri / s,
            ri * ri <= xi * s,
            s > 0,
    ;
    vstd::arithmetic::div_mod::lemma_fundamental_div_mod(ri * ri, s);
    vstd::arithmetic::div_mod::lemma_mod_bound(ri * ri, s);
    assert(xi - 1 <= q) by (nonlinear_arith)
        requires
            ri * ri == s * q + (ri * ri) % s,
            0 <= (ri * ri) % s < s,
            xi * s < (ri + 1) * (ri + 1),
            2 * ri + 1 <= s,
            s > 0,
    ;
}

} // verus!
