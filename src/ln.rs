//! Natural logarithm: find the power of two that brings the value into
//! `[1 / sqrt 2, sqrt 2]`, divide it out at a scale of 29 fractional digits, sum the series
//! `ln(w) = 2 atanh((w - 1) / (w + 1))` at that scale until its terms vanish, add back the
//! power times `ln 2`, and round once to 19 fractional digits. Products go through 256 bits.
use vstd::prelude::*;

use vstd::arithmetic::power2::{
    lemma2_to64, lemma2_to64_rest, lemma_pow2_adds, lemma_pow2_pos, lemma_pow2_strictly_increases, lemma_pow2_unfold,
    pow2,
};

use crate::dec19x19::{div_toward_zero, in_range, Dec19x19};
use crate::wide::{checked_div_wide, mul_wide, narrow, word};
use crate::i128_ops::mag;
use crate::ops::{CheckedLn, UncheckedLn};
use vstd::arithmetic::div_mod::lemma_fundamental_div_mod_converse;

verus! {

/// `10^19 * sqrt(2)`, rounded.
pub const SQRT2_UP_I128: i128 = 14_142_135_623_730_950_488;

/// `10^19 / sqrt(2)`, rounded.
pub const SQRT2_DN_I128: i128 = 7_071_067_811_865_475_244;

/// Halves `v` while it is above `SQRT2_UP_I128`, counting the halvings in `e`.
pub open spec fn halve_down(v: int, e: int) -> (int, int)
    decreases v,
{
    if v > SQRT2_UP_I128 {
        halve_down(v / 2, e + 1)
    } else {
        (v, e)
    }
}

/// Doubles `v > 0` while it is below `SQRT2_DN_I128`, counting the doublings down in `e`.
pub open spec fn double_up(v: int, e: int) -> (int, int)
    decreases if v < 7_071_067_811_865_475_244 { 7_071_067_811_865_475_244 - v } else { 0 },
{
    if 0 < v < 7_071_067_811_865_475_244 {
        double_up(2 * v, e - 1)
    } else {
        (v, e)
    }
}

/// `v` brought into `[SQRT2_DN_I128, SQRT2_UP_I128]`, and the power of two taken out.
pub open spec fn reduce(v: int) -> (int, int) {
    let (a, e) = halve_down(v, 0);
    double_up(a, e)
}

/// The scale of the series: 29 fractional digits, ten more than a value carries.
pub const INNER_SCALE: i128 = 100_000_000_000_000_000_000_000_000_000;

/// The ratio of the series scale to the value scale.
pub const INNER_PER_STEP: i128 = 10_000_000_000;

/// `ln 2` at the series scale, rounded.
pub const LN_2_INNER: i128 = 69_314_718_055_994_530_941_723_212_146;

/// The series scale as a mathematical integer.
pub open spec fn inner() -> int {
    100_000_000_000_000_000_000_000_000_000
}

/// The reduced argument at the series scale: `x / 2^e` with 29 fractional digits, rounded
/// down, computed from `x` itself.
pub open spec fn inner_arg(x: int, e: int) -> int {
    if e >= 0 {
        x * 10_000_000_000 / (pow2(e as nat) as int)
    } else {
        x * 10_000_000_000 * (pow2((-e) as nat) as int)
    }
}

/// The next odd power of `u` in the series: `u_pow * u * u / 10^58`, each division rounded
/// toward zero.
pub open spec fn next_power(u: int, u_pow: int) -> int {
    div_toward_zero(div_toward_zero(u_pow * u, inner()) * u, inner())
}

/// The partial sums of `u + u^3/3 + u^5/5 + ...` from the term `u_pow / k`, until a term
/// rounds to zero.
pub open spec fn atanh_series(u: int, u_pow: int, sum: int, k: int) -> int
    decreases mag(u_pow),
{
    let p = next_power(u, u_pow);
    let term = div_toward_zero(p, k + 2);
    if term == 0 || mag(p) >= mag(u_pow) || k < 0 {
        sum
    } else {
        atanh_series(u, p, sum + term, k + 2)
    }
}

/// `ln(x / 10^19)` at the series scale, for `x > 0`.
pub open spec fn ln_inner(x: int) -> int {
    let e = reduce(x).1;
    let w = inner_arg(x, e);
    let u = div_toward_zero((w - inner()) * inner(), w + inner());
    2 * atanh_series(u, u, u, 1) + LN_2_INNER * e
}

/// `r / 10^10` rounded half away from zero: from the series scale to the value scale.
pub open spec fn round_to_step(r: int) -> int {
    let m = (mag(r) + 5_000_000_000) / 10_000_000_000;
    if r < 0 {
        -m
    } else {
        m
    }
}

/// The representation of `ln(x / 10^19)`, for `x > 0`: the series result rounded once.
pub open spec fn ln_repr(x: int) -> int {
    round_to_step(ln_inner(x))
}

/// A fifth of the scale bounds the series argument.
proof fn lemma_shrink(a: int, u: int)
    requires
        5 * mag(u) <= inner(),
    ensures
        5 * mag(div_toward_zero(a * u, inner())) <= mag(a),
{
    let s = inner();
    assert(mag(a * u) == mag(a) * mag(u)) by (nonlinear_arith);
    assert(mag(div_toward_zero(a * u, s)) == mag(a * u) / s);
    assert(5 * (mag(a) * mag(u) / s) <= mag(a)) by (nonlinear_arith)
        requires
            5 * mag(u) <= s,
            s > 0,
            mag(a) >= 0,
            mag(u) >= 0,
    ;
}

proof fn lemma_term_bound(p: int, k: int)
    requires
        k >= 1,
    ensures
        mag(div_toward_zero(p, k)) <= mag(p),
{
    assert(mag(p) / k <= mag(p)) by (nonlinear_arith)
        requires
            k >= 1,
            mag(p) >= 0,
    ;
}

/// `a * b / d` rounded toward zero, through a 256-bit product.
fn mul_div(a: i128, b: i128, d: i128) -> (r: i128)
    requires
        d > 0,
        in_range(div_toward_zero(a * b, d as int)),
    ensures
        r == div_toward_zero(a * b, d as int),
{
    proof {
        assert(mag(a * b) == mag(a as int) * mag(b as int)) by (nonlinear_arith);
        assert(mag(a as int) * mag(b as int) <= 0x8000_0000_0000_0000_0000_0000_0000_0000 * 0x8000_0000_0000_0000_0000_0000_0000_0000) by (nonlinear_arith)
            requires
                0 <= mag(a as int) <= 0x8000_0000_0000_0000_0000_0000_0000_0000,
                0 <= mag(b as int) <= 0x8000_0000_0000_0000_0000_0000_0000_0000,
        ;
        assert(word() == 0x1_0000_0000_0000_0000_0000_0000_0000_0000int);
        assert(-word() * word() / 2 < a * b);
    }
    let p = mul_wide(a, b);
    let q = checked_div_wide(p, d).unwrap();
    narrow(q).unwrap()
}

/// `2^e` as an `i128`.
fn pow2_i128(e: u32) -> (r: i128)
    requires
        e <= 126,
    ensures
        r == pow2(e as nat),
{
    let mut r: i128 = 1;
    let mut i: u32 = 0;
    proof {
        lemma2_to64();
    }
    while i < e
        invariant
            i <= e <= 126,
            r == pow2(i as nat),
        decreases e - i,
    {
        proof {
            lemma_pow2_unfold((i + 1) as nat);
            lemma2_to64();
            lemma2_to64_rest();
            lemma_pow2_adds(62, 64);
            if i + 1 < 126 {
                lemma_pow2_strictly_increases((i + 1) as nat, 126);
            }
        }
        r = r * 2;
        i = i + 1;
    }
    r
}

impl UncheckedLn for Dec19x19 {
    open spec fn unchecked_ln_defined(self) -> bool {
        self.repr > 0
    }

    /// The natural logarithm, as [`ln_repr`] computes it.
    #[verifier::rlimit(100)]
    fn unchecked_ln(self) -> (r: Self)
        ensures
            r.repr == ln_repr(self.repr as int),
    {
        let x = self.repr;
        let mut v: i128 = x;
        let mut exp: i128 = 0;
        proof {
            lemma2_to64();
            lemma2_to64_rest();
            lemma_pow2_adds(63, 64);
            assert(pow2(127) == pow2(63) * pow2(64));
            assert((x as int) / (pow2(0) as int) == x);
        }
        while v > SQRT2_UP_I128
            invariant
                1 <= v <= x,
                0 <= exp <= 127,
                v == (x as int) / (pow2(exp as nat) as int),
                exp > 0 ==> v >= SQRT2_DN_I128,
                pow2(exp as nat) * v <= x,
                halve_down(x as int, 0) == halve_down(v as int, exp as int),
                pow2(127) == 0x8000_0000_0000_0000_0000_0000_0000_0000,
            decreases v,
        {
            proof {
                lemma_pow2_unfold((exp + 1) as nat);
                lemma_pow2_pos(exp as nat);
                vstd::arithmetic::div_mod::lemma_div_denominator(x as int, pow2(exp as nat) as int, 2);
                assert(pow2(exp as nat) * 2 == pow2((exp + 1) as nat));
                assert(pow2((exp + 1) as nat) * (v / 2) <= pow2(exp as nat) * v) by (nonlinear_arith)
                    requires
                        pow2((exp + 1) as nat) == 2 * pow2(exp as nat),
                        v >= 0,
                        pow2(exp as nat) > 0,
                ;
                assert(pow2((exp + 1) as nat) <= pow2((exp + 1) as nat) * (v / 2)) by (nonlinear_arith)
                    requires
                        v / 2 >= 1,
                        pow2((exp + 1) as nat) > 0,
                ;
                if exp + 1 > 127 {
                    lemma_pow2_strictly_increases(127, (exp + 1) as nat);
                }
            }
            v = v / 2;
            exp = exp + 1;
        }
        proof {
            if exp > 64 {
                lemma_pow2_unfold(65);
                if exp > 65 {
                    lemma_pow2_strictly_increases(65, exp as nat);
                }
                assert(pow2(exp as nat) * v >= pow2(65) * SQRT2_DN_I128) by (nonlinear_arith)
                    requires
                        pow2(exp as nat) >= pow2(65),
                        v >= SQRT2_DN_I128,
                ;
            }
        }
        let ghost v1: int = v as int;
        let ghost e1: int = exp as int;
        let mut down: i128 = 0;
        while v < SQRT2_DN_I128
            invariant
                1 <= v1,
                0 <= e1 <= 64,
                e1 > 0 ==> v1 >= SQRT2_DN_I128 && down == 0,
                e1 == 0 ==> v1 == x,
                e1 >= 0 ==> v1 == (x as int) / (pow2(e1 as nat) as int),
                1 <= v <= SQRT2_UP_I128,
                0 <= down <= 63,
                exp == e1 - down,
                v == v1 * pow2(down as nat),
                halve_down(x as int, 0) == (v1, e1),
                double_up(v1 as int, e1 as int) == double_up(v as int, exp as int),
            decreases if v < 7_071_067_811_865_475_244 { 7_071_067_811_865_475_244 - v } else { 0 },
        {
            proof {
                lemma2_to64();
                lemma_pow2_unfold((down + 1) as nat);
                assert(v1 * pow2((down + 1) as nat) == 2 * v) by (nonlinear_arith)
                    requires
                        pow2((down + 1) as nat) == 2 * pow2(down as nat),
                        v == v1 * pow2(down as nat),
                ;
                assert(pow2((down + 1) as nat) <= 2 * v) by (nonlinear_arith)
                    requires
                        v1 * pow2((down + 1) as nat) == 2 * v,
                        v1 >= 1,
                        pow2((down + 1) as nat) >= 0,
                ;
                if down + 1 > 63 {
                    lemma_pow2_strictly_increases(63, (down + 1) as nat);
                }
            }
            v = v * 2;
            exp = exp - 1;
            down = down + 1;
        }
        assert(reduce(x as int) == (v as int, exp as int));
        // The reduced argument at the series scale, taken from `x` itself.
        let w: i128 = if exp >= 0 {
            let p = pow2_i128(exp as u32);
            proof {
                lemma_pow2_pos(exp as nat);
                assert(down == 0);
                let (xi, pi) = (x as int, p as int);
                vstd::arithmetic::div_mod::lemma_fundamental_div_mod(xi, pi);
                vstd::arithmetic::div_mod::lemma_mod_bound(xi, pi);
                assert(v * 10_000_000_000 <= xi * 10_000_000_000 / pi < (v + 1) * 10_000_000_000)
                    by (nonlinear_arith)
                    requires
                        pi > 0,
                        v == xi / pi,
                        xi == pi * (xi / pi) + xi % pi,
                        0 <= xi % pi < pi,
                ;
            }
            mul_div(x, INNER_PER_STEP, p)
        } else {
            let p = pow2_i128((-exp) as u32);
            proof {
                assert(v1 == x);
                assert(v == x * p);
            }
            v * INNER_PER_STEP
        };
        assert(w == inner_arg(x as int, exp as int)) by (nonlinear_arith)
            requires
                exp < 0 ==> w == v * 10_000_000_000 && v == x * pow2((-exp) as nat),
                exp >= 0 ==> w == div_toward_zero(x * 10_000_000_000, pow2(exp as nat) as int),
                pow2(exp as nat) > 0 || exp < 0,
                x > 0,
        ;
        assert(SQRT2_DN_I128 * 10_000_000_000 <= w < (SQRT2_UP_I128 + 1) * 10_000_000_000);
        let num = w - INNER_SCALE;
        let den = w + INNER_SCALE;
        proof {
            assert(mag(num * inner()) / (den as int) * 5 <= inner()) by (nonlinear_arith)
                requires
                    num == w - inner(),
                    den == w + inner(),
                    SQRT2_DN_I128 * 10_000_000_000 <= w < (SQRT2_UP_I128 + 1) * 10_000_000_000,
                    inner() == 100_000_000_000_000_000_000_000_000_000,
            ;
            assert(mag(div_toward_zero(num * inner(), den as int)) == mag(num * inner()) / (den as int));
        }
        let u = mul_div(num, INNER_SCALE, den);
        assert(5 * mag(u as int) <= inner());
        let mut u_pow: i128 = u;
        let mut sum: i128 = u;
        let mut k: i128 = 1;
        loop
            invariant_except_break
                k + 2 * mag(u_pow as int) <= 1 + 2 * mag(u as int),
                atanh_series(u as int, u as int, u as int, 1) == atanh_series(
                    u as int,
                    u_pow as int,
                    sum as int,
                    k as int,
                ),
            invariant
                ln_inner(x as int) == 2 * atanh_series(u as int, u as int, u as int, 1) + LN_2_INNER * exp,
                -64 <= exp <= 64,
                5 * mag(u as int) <= inner(),
                mag(u_pow as int) <= mag(u as int),
                mag(sum as int) + 2 * mag(u_pow as int) <= 3 * mag(u as int),
                1 <= k,
            ensures
                atanh_series(u as int, u as int, u as int, 1) == sum,
            decreases mag(u_pow as int),
        {
            proof {
                lemma_shrink(u_pow as int, u as int);
                lemma_shrink(div_toward_zero(u_pow * u, inner()), u as int);
            }
            let ghost old_pow = u_pow;
            let t = mul_div(u_pow, u, INNER_SCALE);
            u_pow = mul_div(t, u, INNER_SCALE);
            assert(u_pow == next_power(u as int, old_pow as int));
            k = k + 2;
            let term = u_pow / k;
            proof {
                lemma_term_bound(u_pow as int, k as int);
            }
            if term == 0 {
                break;
            }
            proof {
                assert(mag(u_pow as int) > 0);
                assert(mag(u_pow as int) < mag(old_pow as int));
                assert(term == div_toward_zero(u_pow as int, k as int));
            }
            sum = sum + term;
        }
        let inner_result = sum * 2 + LN_2_INNER * exp;
        let m = if inner_result < 0 { -inner_result } else { inner_result };
        let rounded = (m + 5_000_000_000) / INNER_PER_STEP;
        let repr = if inner_result < 0 { -rounded } else { rounded };
        Dec19x19 { repr }
    }
}

impl CheckedLn for Dec19x19 {
    /// The natural logarithm, or `None` for a value that is not positive.
    fn checked_ln(self) -> (r: Option<Self>)
        ensures
            self.repr <= 0 ==> r is None,
            self.repr > 0 ==> r is Some && r->0.repr == ln_repr(self.repr as int),
    {
        if self.repr > 0 {
            Some(self.unchecked_ln())
        } else {
            None
        }
    }
}



/// `ln(e)` is 1 to the last digit, for `e` at 19 fractional digits: the result is
/// within one step of the exact logarithm.
pub proof fn lemma_ln_e()
    ensures
        ln_repr(27182818284590452353) == 10000000000000000000,
{
    lemma2_to64();
    assert(halve_down(27182818284590452353int, 0) == halve_down(27182818284590452353int, 0));
    assert(halve_down(27182818284590452353int, 0) == halve_down(13591409142295226176int, 1));
    assert(double_up(13591409142295226176int, 1) == (13591409142295226176int, 1int));
    assert(reduce(27182818284590452353int) == (13591409142295226176int, 1int));
    assert((pow2(1) as int) == 2int);
    assert(27182818284590452353int * 10000000000int == 271828182845904523530000000000int);
    lemma_fundamental_div_mod_converse(271828182845904523530000000000int, 2int, 135914091422952261765000000000int, 0int);
    assert(inner_arg(27182818284590452353int, 1) == 135914091422952261765000000000int);
    assert((135914091422952261765000000000int - inner()) * inner() == 3591409142295226176500000000000000000000000000000000000000int);
    assert(135914091422952261765000000000int + inner() == 235914091422952261765000000000int);
    lemma_fundamental_div_mod_converse(3591409142295226176500000000000000000000000000000000000000int, 235914091422952261765000000000int, 15223376953165821970580558159int, 94505167514825509365000000000int);
    assert(div_toward_zero(3591409142295226176500000000000000000000000000000000000000int, 235914091422952261765000000000int) == 15223376953165821970580558159int);
    let u = 15223376953165821970580558159int;
    assert(ln_inner(27182818284590452353int) == 2 * atanh_series(u, u, u, 1) + LN_2_INNER * 1);
    assert(15223376953165821970580558159int * u == 231751205858180304939501723141120638549586954235981469281int);
    lemma_fundamental_div_mod_converse(231751205858180304939501723141120638549586954235981469281int, 100000000000000000000000000000int, 2317512058581803049395017231int, 41120638549586954235981469281int);
    assert(div_toward_zero(231751205858180304939501723141120638549586954235981469281int, 100000000000000000000000000000int) == 2317512058581803049395017231int);
    assert(2317512058581803049395017231int * u == 35280359661298100823743466429436517937685722337402637729int);
    lemma_fundamental_div_mod_converse(35280359661298100823743466429436517937685722337402637729int, 100000000000000000000000000000int, 352803596612981008237434664int, 29436517937685722337402637729int);
    assert(div_toward_zero(35280359661298100823743466429436517937685722337402637729int, 100000000000000000000000000000int) == 352803596612981008237434664int);
    assert(next_power(u, 15223376953165821970580558159int) == 352803596612981008237434664int);
    lemma_fundamental_div_mod_converse(352803596612981008237434664int, 3int, 117601198870993669412478221int, 1int);
    assert(div_toward_zero(352803596612981008237434664int, 3int) == 117601198870993669412478221int);
    assert(atanh_series(u, 15223376953165821970580558159int, 15223376953165821970580558159int, 1) == atanh_series(u, 352803596612981008237434664int, 15340978152036815639993036380int, 3));
    assert(352803596612981008237434664int * u == 5370862141672066529046738860677627325375056983414623576int);
    lemma_fundamental_div_mod_converse(5370862141672066529046738860677627325375056983414623576int, 100000000000000000000000000000int, 53708621416720665290467388int, 60677627325375056983414623576int);
    assert(div_toward_zero(5370862141672066529046738860677627325375056983414623576int, 100000000000000000000000000000int) == 53708621416720665290467388int);
    assert(53708621416720665290467388int * u == 817626589461613654262214075107604009757203307026818692int);
    lemma_fundamental_div_mod_converse(817626589461613654262214075107604009757203307026818692int, 100000000000000000000000000000int, 8176265894616136542622140int, 75107604009757203307026818692int);
    assert(div_toward_zero(817626589461613654262214075107604009757203307026818692int, 100000000000000000000000000000int) == 8176265894616136542622140int);
    assert(next_power(u, 352803596612981008237434664int) == 8176265894616136542622140int);
    lemma_fundamental_div_mod_converse(8176265894616136542622140int, 5int, 1635253178923227308524428int, 0int);
    assert(div_toward_zero(8176265894616136542622140int, 5int) == 1635253178923227308524428int);
    assert(atanh_series(u, 352803596612981008237434664int, 15340978152036815639993036380int, 3) == atanh_series(u, 8176265894616136542622140int, 15342613405215738867301560808int, 5));
    assert(8176265894616136542622140int * u == 124470377783055024347490846294098844463293134631040260int);
    lemma_fundamental_div_mod_converse(124470377783055024347490846294098844463293134631040260int, 100000000000000000000000000000int, 1244703777830550243474908int, 46294098844463293134631040260int);
    assert(div_toward_zero(124470377783055024347490846294098844463293134631040260int, 100000000000000000000000000000int) == 1244703777830550243474908int);
    assert(1244703777830550243474908int * u == 18948594804944030149053380182309962153437554351174372int);
    lemma_fundamental_div_mod_converse(18948594804944030149053380182309962153437554351174372int, 100000000000000000000000000000int, 189485948049440301490533int, 80182309962153437554351174372int);
    assert(div_toward_zero(18948594804944030149053380182309962153437554351174372int, 100000000000000000000000000000int) == 189485948049440301490533int);
    assert(next_power(u, 8176265894616136542622140int) == 189485948049440301490533int);
    lemma_fundamental_div_mod_converse(189485948049440301490533int, 7int, 27069421149920043070076int, 1int);
    assert(div_toward_zero(189485948049440301490533int, 7int) == 27069421149920043070076int);
    assert(atanh_series(u, 8176265894616136542622140int, 15342613405215738867301560808int, 5) == atanh_series(u, 189485948049440301490533int, 15342640474636888787344630884int, 7));
    assert(189485948049440301490533int * u == 2884616014484625723563235081232455820823758794408747int);
    lemma_fundamental_div_mod_converse(2884616014484625723563235081232455820823758794408747int, 100000000000000000000000000000int, 28846160144846257235632int, 35081232455820823758794408747int);
    assert(div_toward_zero(2884616014484625723563235081232455820823758794408747int, 100000000000000000000000000000int) == 28846160144846257235632int);
    assert(28846160144846257235632int * u == 439135969536382981248130444539146368873798943121488int);
    lemma_fundamental_div_mod_converse(439135969536382981248130444539146368873798943121488int, 100000000000000000000000000000int, 4391359695363829812481int, 30444539146368873798943121488int);
    assert(div_toward_zero(439135969536382981248130444539146368873798943121488int, 100000000000000000000000000000int) == 4391359695363829812481int);
    assert(next_power(u, 189485948049440301490533int) == 4391359695363829812481int);
    lemma_fundamental_div_mod_converse(4391359695363829812481int, 9int, 487928855040425534720int, 1int);
    assert(div_toward_zero(4391359695363829812481int, 9int) == 487928855040425534720int);
    assert(atanh_series(u, 189485948049440301490533int, 15342640474636888787344630884int, 7) == atanh_series(u, 4391359695363829812481int, 15342640962565743827770165604int, 9));
    assert(4391359695363829812481int * u == 66851323979463011635350836976890555878693284582479int);
    lemma_fundamental_div_mod_converse(66851323979463011635350836976890555878693284582479int, 100000000000000000000000000000int, 668513239794630116353int, 50836976890555878693284582479int);
    assert(div_toward_zero(66851323979463011635350836976890555878693284582479int, 100000000000000000000000000000int) == 668513239794630116353int);
    assert(668513239794630116353int * u == 10177029047575788749229907389486279673845853474127int);
    lemma_fundamental_div_mod_converse(10177029047575788749229907389486279673845853474127int, 100000000000000000000000000000int, 101770290475757887492int, 29907389486279673845853474127int);
    assert(div_toward_zero(10177029047575788749229907389486279673845853474127int, 100000000000000000000000000000int) == 101770290475757887492int);
    assert(next_power(u, 4391359695363829812481int) == 101770290475757887492int);
    lemma_fundamental_div_mod_converse(101770290475757887492int, 11int, 9251844588705262499int, 3int);
    assert(div_toward_zero(101770290475757887492int, 11int) == 9251844588705262499int);
    assert(atanh_series(u, 4391359695363829812481int, 15342640962565743827770165604int, 9) == atanh_series(u, 101770290475757887492int, 15342640971817588416475428103int, 11));
    assert(101770290475757887492int * u == 1549287494545643779766925754502463032532084647228int);
    lemma_fundamental_div_mod_converse(1549287494545643779766925754502463032532084647228int, 100000000000000000000000000000int, 15492874945456437797int, 66925754502463032532084647228int);
    assert(div_toward_zero(1549287494545643779766925754502463032532084647228int, 100000000000000000000000000000int) == 15492874945456437797int);
    assert(15492874945456437797int * u == 235853875382941726277741636561632415032124335723int);
    lemma_fundamental_div_mod_converse(235853875382941726277741636561632415032124335723int, 100000000000000000000000000000int, 2358538753829417262int, 77741636561632415032124335723int);
    assert(div_toward_zero(235853875382941726277741636561632415032124335723int, 100000000000000000000000000000int) == 2358538753829417262int);
    assert(next_power(u, 101770290475757887492int) == 2358538753829417262int);
    lemma_fundamental_div_mod_converse(2358538753829417262int, 13int, 181426057986878250int, 12int);
    assert(div_toward_zero(2358538753829417262int, 13int) == 181426057986878250int);
    assert(atanh_series(u, 101770290475757887492int, 15342640971817588416475428103int, 11) == atanh_series(u, 2358538753829417262int, 15342640971999014474462306353int, 13));
    assert(2358538753829417262int * u == 35904924508195188783601770617190206825669540658int);
    lemma_fundamental_div_mod_converse(35904924508195188783601770617190206825669540658int, 100000000000000000000000000000int, 359049245081951887int, 83601770617190206825669540658int);
    assert(div_toward_zero(35904924508195188783601770617190206825669540658int, 100000000000000000000000000000int) == 359049245081951887int);
    assert(359049245081951887int * u == 5465942002632173206165611353062675181643296033int);
    lemma_fundamental_div_mod_converse(5465942002632173206165611353062675181643296033int, 100000000000000000000000000000int, 54659420026321732int, 6165611353062675181643296033int);
    assert(div_toward_zero(5465942002632173206165611353062675181643296033int, 100000000000000000000000000000int) == 54659420026321732int);
    assert(next_power(u, 2358538753829417262int) == 54659420026321732int);
    lemma_fundamental_div_mod_converse(54659420026321732int, 15int, 3643961335088115int, 7int);
    assert(div_toward_zero(54659420026321732int, 15int) == 3643961335088115int);
    assert(atanh_series(u, 2358538753829417262int, 15342640971999014474462306353int, 13) == atanh_series(u, 54659420026321732int, 15342640972002658435797394468int, 15));
    assert(54659420026321732int * u == 832100955102116641031397689716541116271611388int);
    lemma_fundamental_div_mod_converse(832100955102116641031397689716541116271611388int, 100000000000000000000000000000int, 8321009551021166int, 41031397689716541116271611388int);
    assert(div_toward_zero(832100955102116641031397689716541116271611388int, 100000000000000000000000000000int) == 8321009551021166int);
    assert(8321009551021166int * u == 126673865026088302300557173243779284702993394int);
    lemma_fundamental_div_mod_converse(126673865026088302300557173243779284702993394int, 100000000000000000000000000000int, 1266738650260883int, 2300557173243779284702993394int);
    assert(div_toward_zero(126673865026088302300557173243779284702993394int, 100000000000000000000000000000int) == 1266738650260883int);
    assert(next_power(u, 54659420026321732int) == 1266738650260883int);
    lemma_fundamental_div_mod_converse(1266738650260883int, 17int, 74514038250640int, 3int);
    assert(div_toward_zero(1266738650260883int, 17int) == 74514038250640int);
    assert(atanh_series(u, 54659420026321732int, 15342640972002658435797394468int, 15) == atanh_series(u, 1266738650260883int, 15342640972002732949835645108int, 17));
    assert(1266738650260883int * u == 19284039974065906798826315091729113104194397int);
    lemma_fundamental_div_mod_converse(19284039974065906798826315091729113104194397int, 100000000000000000000000000000int, 192840399740659int, 6798826315091729113104194397int);
    assert(div_toward_zero(19284039974065906798826315091729113104194397int, 100000000000000000000000000000int) == 192840399740659int);
    assert(192840399740659int * u == 2935682097051232572724565631932491066486781int);
    lemma_fundamental_div_mod_converse(2935682097051232572724565631932491066486781int, 100000000000000000000000000000int, 29356820970512int, 32572724565631932491066486781int);
    assert(div_toward_zero(2935682097051232572724565631932491066486781int, 100000000000000000000000000000int) == 29356820970512int);
    assert(next_power(u, 1266738650260883int) == 29356820970512int);
    lemma_fundamental_div_mod_converse(29356820970512int, 19int, 1545095840553int, 5int);
    assert(div_toward_zero(29356820970512int, 19int) == 1545095840553int);
    assert(atanh_series(u, 1266738650260883int, 15342640972002732949835645108int, 17) == atanh_series(u, 29356820970512int, 15342640972002734494931485661int, 19));
    assert(29356820970512int * u == 446909951780707479313246953685373040007408int);
    lemma_fundamental_div_mod_converse(446909951780707479313246953685373040007408int, 100000000000000000000000000000int, 4469099517807int, 7479313246953685373040007408int);
    assert(div_toward_zero(446909951780707479313246953685373040007408int, 100000000000000000000000000000int) == 4469099517807int);
    assert(4469099517807int * u == 68034786600787571790834379008235819637313int);
    lemma_fundamental_div_mod_converse(68034786600787571790834379008235819637313int, 100000000000000000000000000000int, 680347866007int, 87571790834379008235819637313int);
    assert(div_toward_zero(68034786600787571790834379008235819637313int, 100000000000000000000000000000int) == 680347866007int);
    assert(next_power(u, 29356820970512int) == 680347866007int);
    lemma_fundamental_div_mod_converse(680347866007int, 21int, 32397517428int, 19int);
    assert(div_toward_zero(680347866007int, 21int) == 32397517428int);
    assert(atanh_series(u, 29356820970512int, 15342640972002734494931485661int, 19) == atanh_series(u, 680347866007int, 15342640972002734527329003089int, 21));
    assert(680347866007int * u == 10357192023506512560492558278358602601113int);
    lemma_fundamental_div_mod_converse(10357192023506512560492558278358602601113int, 100000000000000000000000000000int, 103571920235int, 6512560492558278358602601113int);
    assert(div_toward_zero(10357192023506512560492558278358602601113int, 100000000000000000000000000000int) == 103571920235int);
    assert(103571920235int * u == 1576714383500627843865180086285726447365int);
    lemma_fundamental_div_mod_converse(1576714383500627843865180086285726447365int, 100000000000000000000000000000int, 15767143835int, 627843865180086285726447365int);
    assert(div_toward_zero(1576714383500627843865180086285726447365int, 100000000000000000000000000000int) == 15767143835int);
    assert(next_power(u, 680347866007int) == 15767143835int);
    lemma_fundamental_div_mod_converse(15767143835int, 23int, 685527992int, 19int);
    assert(div_toward_zero(15767143835int, 23int) == 685527992int);
    assert(atanh_series(u, 680347866007int, 15342640972002734527329003089int, 21) == atanh_series(u, 15767143835int, 15342640972002734528014531081int, 23));
    assert(15767143835int * u == 240029174074989573616146798947535799765int);
    lemma_fundamental_div_mod_converse(240029174074989573616146798947535799765int, 100000000000000000000000000000int, 2400291740int, 74989573616146798947535799765int);
    assert(div_toward_zero(240029174074989573616146798947535799765int, 100000000000000000000000000000int) == 2400291740int);
    assert(2400291740int * u == 36540545955590289326295036753637306660int);
    lemma_fundamental_div_mod_converse(36540545955590289326295036753637306660int, 100000000000000000000000000000int, 365405459int, 55590289326295036753637306660int);
    assert(div_toward_zero(36540545955590289326295036753637306660int, 100000000000000000000000000000int) == 365405459int);
    assert(next_power(u, 15767143835int) == 365405459int);
    lemma_fundamental_div_mod_converse(365405459int, 25int, 14616218int, 9int);
    assert(div_toward_zero(365405459int, 25int) == 14616218int);
    assert(atanh_series(u, 15767143835int, 15342640972002734528014531081int, 23) == atanh_series(u, 365405459int, 15342640972002734528029147299int, 25));
    assert(365405459int * u == 5562705043101578680272273350565589981int);
    lemma_fundamental_div_mod_converse(5562705043101578680272273350565589981int, 100000000000000000000000000000int, 55627050int, 43101578680272273350565589981int);
    assert(div_toward_zero(5562705043101578680272273350565589981int, 100000000000000000000000000000int) == 55627050int);
    assert(55627050int * u == 846831550942602837048583237738600950int);
    lemma_fundamental_div_mod_converse(846831550942602837048583237738600950int, 100000000000000000000000000000int, 8468315int, 50942602837048583237738600950int);
    assert(div_toward_zero(846831550942602837048583237738600950int, 100000000000000000000000000000int) == 8468315int);
    assert(next_power(u, 365405459int) == 8468315int);
    lemma_fundamental_div_mod_converse(8468315int, 27int, 313641int, 8int);
    assert(div_toward_zero(8468315int, 27int) == 313641int);
    assert(atanh_series(u, 365405459int, 15342640972002734528029147299int, 25) == atanh_series(u, 8468315int, 15342640972002734528029460940int, 27));
    assert(8468315int * u == 128916351403148427680796899366232085int);
    lemma_fundamental_div_mod_converse(128916351403148427680796899366232085int, 100000000000000000000000000000int, 1289163int, 51403148427680796899366232085int);
    assert(div_toward_zero(128916351403148427680796899366232085int, 100000000000000000000000000000int) == 1289163int);
    assert(1289163int * u == 19625414303074110549059544097930917int);
    lemma_fundamental_div_mod_converse(19625414303074110549059544097930917int, 100000000000000000000000000000int, 196254int, 14303074110549059544097930917int);
    assert(div_toward_zero(19625414303074110549059544097930917int, 100000000000000000000000000000int) == 196254int);
    assert(next_power(u, 8468315int) == 196254int);
    lemma_fundamental_div_mod_converse(196254int, 29int, 6767int, 11int);
    assert(div_toward_zero(196254int, 29int) == 6767int);
    assert(atanh_series(u, 8468315int, 15342640972002734528029460940int, 27) == atanh_series(u, 196254int, 15342640972002734528029467707int, 29));
    assert(196254int * u == 2987648620566605225014316860936386int);
    lemma_fundamental_div_mod_converse(2987648620566605225014316860936386int, 100000000000000000000000000000int, 29876int, 48620566605225014316860936386int);
    assert(div_toward_zero(2987648620566605225014316860936386int, 100000000000000000000000000000int) == 29876int);
    assert(29876int * u == 454813609852782097193064755558284int);
    lemma_fundamental_div_mod_converse(454813609852782097193064755558284int, 100000000000000000000000000000int, 4548int, 13609852782097193064755558284int);
    assert(div_toward_zero(454813609852782097193064755558284int, 100000000000000000000000000000int) == 4548int);
    assert(next_power(u, 196254int) == 4548int);
    lemma_fundamental_div_mod_converse(4548int, 31int, 146int, 22int);
    assert(div_toward_zero(4548int, 31int) == 146int);
    assert(atanh_series(u, 196254int, 15342640972002734528029467707int, 29) == atanh_series(u, 4548int, 15342640972002734528029467853int, 31));
    assert(4548int * u == 69235918382998158322200378507132int);
    lemma_fundamental_div_mod_converse(69235918382998158322200378507132int, 100000000000000000000000000000int, 692int, 35918382998158322200378507132int);
    assert(div_toward_zero(69235918382998158322200378507132int, 100000000000000000000000000000int) == 692int);
    assert(692int * u == 10534576851590748803641746246028int);
    lemma_fundamental_div_mod_converse(10534576851590748803641746246028int, 100000000000000000000000000000int, 105int, 34576851590748803641746246028int);
    assert(div_toward_zero(10534576851590748803641746246028int, 100000000000000000000000000000int) == 105int);
    assert(next_power(u, 4548int) == 105int);
    lemma_fundamental_div_mod_converse(105int, 33int, 3int, 6int);
    assert(div_toward_zero(105int, 33int) == 3int);
    assert(atanh_series(u, 4548int, 15342640972002734528029467853int, 31) == atanh_series(u, 105int, 15342640972002734528029467856int, 33));
    assert(105int * u == 1598454580082411306910958606695int);
    lemma_fundamental_div_mod_converse(1598454580082411306910958606695int, 100000000000000000000000000000int, 15int, 98454580082411306910958606695int);
    assert(div_toward_zero(1598454580082411306910958606695int, 100000000000000000000000000000int) == 15int);
    assert(15int * u == 228350654297487329558708372385int);
    lemma_fundamental_div_mod_converse(228350654297487329558708372385int, 100000000000000000000000000000int, 2int, 28350654297487329558708372385int);
    assert(div_toward_zero(228350654297487329558708372385int, 100000000000000000000000000000int) == 2int);
    assert(next_power(u, 105int) == 2int);
    lemma_fundamental_div_mod_converse(2int, 35int, 0int, 2int);
    assert(div_toward_zero(2int, 35int) == 0int);
    assert(atanh_series(u, 105int, 15342640972002734528029467856int, 33) == 15342640972002734528029467856int);
    assert(ln_inner(27182818284590452353int) == 99999999999999999997782147858int);
    lemma_fundamental_div_mod_converse(100000000000000000002782147858int, 10000000000int, 10000000000000000000int, 2782147858int);
    assert(round_to_step(99999999999999999997782147858int) == 10000000000000000000int);
}

/// `ln(e^2)` is 2 to the last digit, for `e^2` at 19 fractional digits: the result is
/// within one step of the exact logarithm.
pub proof fn lemma_ln_e_squared()
    ensures
        ln_repr(73890560989306502272) == 20000000000000000000,
{
    lemma2_to64();
    assert(halve_down(73890560989306502272int, 0) == halve_down(73890560989306502272int, 0));
    assert(halve_down(73890560989306502272int, 0) == halve_down(36945280494653251136int, 1));
    assert(halve_down(73890560989306502272int, 0) == halve_down(18472640247326625568int, 2));
    assert(halve_down(73890560989306502272int, 0) == halve_down(9236320123663312784int, 3));
    assert(double_up(9236320123663312784int, 3) == (9236320123663312784int, 3int));
    assert(reduce(73890560989306502272int) == (9236320123663312784int, 3int));
    assert((pow2(3) as int) == 8int);
    assert(73890560989306502272int * 10000000000int == 738905609893065022720000000000int);
    lemma_fundamental_div_mod_converse(738905609893065022720000000000int, 8int, 92363201236633127840000000000int, 0int);
    assert(inner_arg(73890560989306502272int, 3) == 92363201236633127840000000000int);
    assert((92363201236633127840000000000int - inner()) * inner() == -763679876336687216000000000000000000000000000000000000000int);
    assert(92363201236633127840000000000int + inner() == 192363201236633127840000000000int);
    lemma_fundamental_div_mod_converse(763679876336687216000000000000000000000000000000000000000int, 192363201236633127840000000000int, 3969989433671652193074738478int, 146180969060858972480000000000int);
    assert(div_toward_zero(-763679876336687216000000000000000000000000000000000000000int, 192363201236633127840000000000int) == -3969989433671652193074738478int);
    let u = -3969989433671652193074738478int;
    assert(ln_inner(73890560989306502272int) == 2 * atanh_series(u, u, u, 1) + LN_2_INNER * 3);
    assert(-3969989433671652193074738478int * u == 15760816103464565707767091742259111722305950348093756484int);
    lemma_fundamental_div_mod_converse(15760816103464565707767091742259111722305950348093756484int, 100000000000000000000000000000int, 157608161034645657077670917int, 42259111722305950348093756484int);
    assert(div_toward_zero(15760816103464565707767091742259111722305950348093756484int, 100000000000000000000000000000int) == 157608161034645657077670917int);
    assert(157608161034645657077670917int * u == -625702733967963472503091499371672025414666033121444326int);
    lemma_fundamental_div_mod_converse(625702733967963472503091499371672025414666033121444326int, 100000000000000000000000000000int, 6257027339679634725030914int, 99371672025414666033121444326int);
    assert(div_toward_zero(-625702733967963472503091499371672025414666033121444326int, 100000000000000000000000000000int) == -6257027339679634725030914int);
    assert(next_power(u, -3969989433671652193074738478int) == -6257027339679634725030914int);
    lemma_fundamental_div_mod_converse(6257027339679634725030914int, 3int, 2085675779893211575010304int, 2int);
    assert(div_toward_zero(-6257027339679634725030914int, 3int) == -2085675779893211575010304int);
    assert(atanh_series(u, -3969989433671652193074738478int, -3969989433671652193074738478int, 1) == atanh_series(u, -6257027339679634725030914int, -3972075109451545404649748782int, 3));
    assert(-6257027339679634725030914int * u == 24840332424722797598497012459009772287839161015308892int);
    lemma_fundamental_div_mod_converse(24840332424722797598497012459009772287839161015308892int, 100000000000000000000000000000int, 248403324247227975984970int, 12459009772287839161015308892int);
    assert(div_toward_zero(24840332424722797598497012459009772287839161015308892int, 100000000000000000000000000000int) == 248403324247227975984970int);
    assert(248403324247227975984970int * u == -986158572550408381700014697447644750183347208675660int);
    lemma_fundamental_div_mod_converse(986158572550408381700014697447644750183347208675660int, 100000000000000000000000000000int, 9861585725504083817000int, 14697447644750183347208675660int);
    assert(div_toward_zero(-986158572550408381700014697447644750183347208675660int, 100000000000000000000000000000int) == -9861585725504083817000int);
    assert(next_power(u, -6257027339679634725030914int) == -9861585725504083817000int);
    lemma_fundamental_div_mod_converse(9861585725504083817000int, 5int, 1972317145100816763400int, 0int);
    assert(div_toward_zero(-9861585725504083817000int, 5int) == -1972317145100816763400int);
    assert(atanh_series(u, -6257027339679634725030914int, -3972075109451545404649748782int, 3) == atanh_series(u, -9861585725504083817000int, -3972077081768690505466512182int, 5));
    assert(-9861585725504083817000int * u == 39150391129498407031565659594934561688267010526000int);
    lemma_fundamental_div_mod_converse(39150391129498407031565659594934561688267010526000int, 100000000000000000000000000000int, 391503911294984070315int, 65659594934561688267010526000int);
    assert(div_toward_zero(39150391129498407031565659594934561688267010526000int, 100000000000000000000000000000int) == 391503911294984070315int);
    assert(391503911294984070315int * u == -1554266391082210565672492908583370069244588080570int);
    lemma_fundamental_div_mod_converse(1554266391082210565672492908583370069244588080570int, 100000000000000000000000000000int, 15542663910822105656int, 72492908583370069244588080570int);
    assert(div_toward_zero(-1554266391082210565672492908583370069244588080570int, 100000000000000000000000000000int) == -15542663910822105656int);
    assert(next_power(u, -9861585725504083817000int) == -15542663910822105656int);
    lemma_fundamental_div_mod_converse(15542663910822105656int, 7int, 2220380558688872236int, 4int);
    assert(div_toward_zero(-15542663910822105656int, 7int) == -2220380558688872236int);
    assert(atanh_series(u, -9861585725504083817000int, -3972077081768690505466512182int, 5) == atanh_series(u, -15542663910822105656int, -3972077083989071064155384418int, 7));
    assert(-15542663910822105656int * u == 61704211497073478099056791789490475513484631568int);
    lemma_fundamental_div_mod_converse(61704211497073478099056791789490475513484631568int, 100000000000000000000000000000int, 617042114970734780int, 99056791789490475513484631568int);
    assert(div_toward_zero(61704211497073478099056791789490475513484631568int, 100000000000000000000000000000int) == 617042114970734780int);
    assert(617042114970734780int * u == -2449650676564225870585148674343186271998864840int);
    lemma_fundamental_div_mod_converse(2449650676564225870585148674343186271998864840int, 100000000000000000000000000000int, 24496506765642258int, 70585148674343186271998864840int);
    assert(div_toward_zero(-2449650676564225870585148674343186271998864840int, 100000000000000000000000000000int) == -24496506765642258int);
    assert(next_power(u, -15542663910822105656int) == -24496506765642258int);
    lemma_fundamental_div_mod_converse(24496506765642258int, 9int, 2721834085071362int, 0int);
    assert(div_toward_zero(-24496506765642258int, 9int) == -2721834085071362int);
    assert(atanh_series(u, -15542663910822105656int, -3972077083989071064155384418int, 7) == atanh_series(u, -24496506765642258int, -3972077083991792898240455780int, 9));
    assert(-24496506765642258int * u == 97250873021465904210073505271152599055403324int);
    lemma_fundamental_div_mod_converse(97250873021465904210073505271152599055403324int, 100000000000000000000000000000int, 972508730214659int, 4210073505271152599055403324int);
    assert(div_toward_zero(97250873021465904210073505271152599055403324int, 100000000000000000000000000000int) == 972508730214659int);
    assert(972508730214659int * u == -3860849383105631673131351900435143226949002int);
    lemma_fundamental_div_mod_converse(3860849383105631673131351900435143226949002int, 100000000000000000000000000000int, 38608493831056int, 31673131351900435143226949002int);
    assert(div_toward_zero(-3860849383105631673131351900435143226949002int, 100000000000000000000000000000int) == -38608493831056int);
    assert(next_power(u, -24496506765642258int) == -38608493831056int);
    lemma_fundamental_div_mod_converse(38608493831056int, 11int, 3509863075550int, 6int);
    assert(div_toward_zero(-38608493831056int, 11int) == -3509863075550int);
    assert(atanh_series(u, -24496506765642258int, -3972077083991792898240455780int, 9) == atanh_series(u, -38608493831056int, -3972077083991796408103531330int, 11));
    assert(-38608493831056int * u == 153275312559269486784189273972613514572768int);
    lemma_fundamental_div_mod_converse(153275312559269486784189273972613514572768int, 100000000000000000000000000000int, 1532753125592int, 69486784189273972613514572768int);
    assert(div_toward_zero(153275312559269486784189273972613514572768int, 100000000000000000000000000000int) == 1532753125592int);
    assert(1532753125592int * u == -6085013713027438867582026859012488928976int);
    lemma_fundamental_div_mod_converse(6085013713027438867582026859012488928976int, 100000000000000000000000000000int, 60850137130int, 27438867582026859012488928976int);
    assert(div_toward_zero(-6085013713027438867582026859012488928976int, 100000000000000000000000000000int) == -60850137130int);
    assert(next_power(u, -38608493831056int) == -60850137130int);
    lemma_fundamental_div_mod_converse(60850137130int, 13int, 4680779779int, 3int);
    assert(div_toward_zero(-60850137130int, 13int) == -4680779779int);
    assert(atanh_series(u, -38608493831056int, -3972077083991796408103531330int, 11) == atanh_series(u, -60850137130int, -3972077083991796412784311109int, 13));
    assert(-60850137130int * u == 241574401443571075342263072725187488140int);
    lemma_fundamental_div_mod_converse(241574401443571075342263072725187488140int, 100000000000000000000000000000int, 2415744014int, 43571075342263072725187488140int);
    assert(div_toward_zero(241574401443571075342263072725187488140int, 100000000000000000000000000000int) == 2415744014int);
    assert(2415744014int * u == -9590478210035543826910271732843970692int);
    lemma_fundamental_div_mod_converse(9590478210035543826910271732843970692int, 100000000000000000000000000000int, 95904782int, 10035543826910271732843970692int);
    assert(div_toward_zero(-9590478210035543826910271732843970692int, 100000000000000000000000000000int) == -95904782int);
    assert(next_power(u, -60850137130int) == -95904782int);
    lemma_fundamental_div_mod_converse(95904782int, 15int, 6393652int, 2int);
    assert(div_toward_zero(-95904782int, 15int) == -6393652int);
    assert(atanh_series(u, -60850137130int, -3972077083991796412784311109int, 13) == atanh_series(u, -95904782int, -3972077083991796412790704761int, 15));
    assert(-95904782int * u == 380740971178583263156654703439601796int);
    lemma_fundamental_div_mod_converse(380740971178583263156654703439601796int, 100000000000000000000000000000int, 3807409int, 71178583263156654703439601796int);
    assert(div_toward_zero(380740971178583263156654703439601796int, 100000000000000000000000000000int) == 3807409int);
    assert(3807409int * u == -15115373499666351604782496953783502int);
    lemma_fundamental_div_mod_converse(15115373499666351604782496953783502int, 100000000000000000000000000000int, 151153int, 73499666351604782496953783502int);
    assert(div_toward_zero(-15115373499666351604782496953783502int, 100000000000000000000000000000int) == -151153int);
    assert(next_power(u, -95904782int) == -151153int);
    lemma_fundamental_div_mod_converse(151153int, 17int, 8891int, 6int);
    assert(div_toward_zero(-151153int, 17int) == -8891int);
    assert(atanh_series(u, -95904782int, -3972077083991796412790704761int, 15) == atanh_series(u, -151153int, -3972077083991796412790713652int, 17));
    assert(-151153int * u == 600075812867771243939825945165134int);
    lemma_fundamental_div_mod_converse(600075812867771243939825945165134int, 100000000000000000000000000000int, 6000int, 75812867771243939825945165134int);
    assert(div_toward_zero(600075812867771243939825945165134int, 100000000000000000000000000000int) == 6000int);
    assert(6000int * u == -23819936602029913158448430868000int);
    lemma_fundamental_div_mod_converse(23819936602029913158448430868000int, 100000000000000000000000000000int, 238int, 19936602029913158448430868000int);
    assert(div_toward_zero(-23819936602029913158448430868000int, 100000000000000000000000000000int) == -238int);
    assert(next_power(u, -151153int) == -238int);
    lemma_fundamental_div_mod_converse(238int, 19int, 12int, 10int);
    assert(div_toward_zero(-238int, 19int) == -12int);
    assert(atanh_series(u, -151153int, -3972077083991796412790713652int, 17) == atanh_series(u, -238int, -3972077083991796412790713664int, 19));
    assert(-238int * u == 944857485213853221951787757764int);
    lemma_fundamental_div_mod_converse(944857485213853221951787757764int, 100000000000000000000000000000int, 9int, 44857485213853221951787757764int);
    assert(div_toward_zero(944857485213853221951787757764int, 100000000000000000000000000000int) == 9int);
    assert(9int * u == -35729904903044869737672646302int);
    lemma_fundamental_div_mod_converse(35729904903044869737672646302int, 100000000000000000000000000000int, 0int, 35729904903044869737672646302int);
    assert(div_toward_zero(-35729904903044869737672646302int, 100000000000000000000000000000int) == 0int);
    assert(next_power(u, -238int) == 0int);
    lemma_fundamental_div_mod_converse(0int, 21int, 0int, 0int);
    assert(div_toward_zero(0int, 21int) == 0int);
    assert(atanh_series(u, -238int, -3972077083991796412790713664int, 19) == -3972077083991796412790713664int);
    assert(ln_inner(73890560989306502272int) == 199999999999999999999588209110int);
    lemma_fundamental_div_mod_converse(200000000000000000004588209110int, 10000000000int, 20000000000000000000int, 4588209110int);
    assert(round_to_step(199999999999999999999588209110int) == 20000000000000000000int);
}

/// `ln(e^3)` is 3 to the last digit, for `e^3` at 19 fractional digits: the result is
/// within one step of the exact logarithm.
pub proof fn lemma_ln_e_cubed()
    ensures
        ln_repr(200855369231876677409) == 30000000000000000000,
{
    lemma2_to64();
    assert(halve_down(200855369231876677409int, 0) == halve_down(200855369231876677409int, 0));
    assert(halve_down(200855369231876677409int, 0) == halve_down(100427684615938338704int, 1));
    assert(halve_down(200855369231876677409int, 0) == halve_down(50213842307969169352int, 2));
    assert(halve_down(200855369231876677409int, 0) == halve_down(25106921153984584676int, 3));
    assert(halve_down(200855369231876677409int, 0) == halve_down(12553460576992292338int, 4));
    assert(double_up(12553460576992292338int, 4) == (12553460576992292338int, 4int));
    assert(reduce(200855369231876677409int) == (12553460576992292338int, 4int));
    assert((pow2(4) as int) == 16int);
    assert(200855369231876677409int * 10000000000int == 2008553692318766774090000000000int);
    lemma_fundamental_div_mod_converse(2008553692318766774090000000000int, 16int, 125534605769922923380625000000int, 0int);
    assert(inner_arg(200855369231876677409int, 4) == 125534605769922923380625000000int);
    assert((125534605769922923380625000000int - inner()) * inner() == 2553460576992292338062500000000000000000000000000000000000int);
    assert(125534605769922923380625000000int + inner() == 225534605769922923380625000000int);
    lemma_fundamental_div_mod_converse(2553460576992292338062500000000000000000000000000000000000int, 225534605769922923380625000000int, 11321812758070404146631412144int, 104431860162241840690000000000int);
    assert(div_toward_zero(2553460576992292338062500000000000000000000000000000000000int, 225534605769922923380625000000int) == 11321812758070404146631412144int);
    let u = 11321812758070404146631412144int;
    assert(ln_inner(200855369231876677409int) == 2 * atanh_series(u, u, u, 1) + LN_2_INNER * 4);
    assert(11321812758070404146631412144int * u == 128183444128805771695100206214853563685943379343590676736int);
    lemma_fundamental_div_mod_converse(128183444128805771695100206214853563685943379343590676736int, 100000000000000000000000000000int, 1281834441288057716951002062int, 14853563685943379343590676736int);
    assert(div_toward_zero(128183444128805771695100206214853563685943379343590676736int, 100000000000000000000000000000int) == 1281834441288057716951002062int);
    assert(1281834441288057716951002062int * u == 14512689531109180272777846682823286664675126406915840928int);
    lemma_fundamental_div_mod_converse(14512689531109180272777846682823286664675126406915840928int, 100000000000000000000000000000int, 145126895311091802727778466int, 82823286664675126406915840928int);
    assert(div_toward_zero(14512689531109180272777846682823286664675126406915840928int, 100000000000000000000000000000int) == 145126895311091802727778466int);
    assert(next_power(u, 11321812758070404146631412144int) == 145126895311091802727778466int);
    lemma_fundamental_div_mod_converse(145126895311091802727778466int, 3int, 48375631770363934242592822int, 0int);
    assert(div_toward_zero(145126895311091802727778466int, 3int) == 48375631770363934242592822int);
    assert(atanh_series(u, 11321812758070404146631412144int, 11321812758070404146631412144int, 1) == atanh_series(u, 145126895311091802727778466int, 11370188389840768080874004966int, 3));
    assert(145126895311091802727778466int * u == 1643099534872267086250225144175558963517091685574091104int);
    lemma_fundamental_div_mod_converse(1643099534872267086250225144175558963517091685574091104int, 100000000000000000000000000000int, 16430995348722670862502251int, 44175558963517091685574091104int);
    assert(div_toward_zero(1643099534872267086250225144175558963517091685574091104int, 100000000000000000000000000000int) == 16430995348722670862502251int);
    assert(16430995348722670862502251int * u == 186028652766963804180744371009622821675431521508736144int);
    lemma_fundamental_div_mod_converse(186028652766963804180744371009622821675431521508736144int, 100000000000000000000000000000int, 1860286527669638041807443int, 71009622821675431521508736144int);
    assert(div_toward_zero(186028652766963804180744371009622821675431521508736144int, 100000000000000000000000000000int) == 1860286527669638041807443int);
    assert(next_power(u, 145126895311091802727778466int) == 1860286527669638041807443int);
    lemma_fundamental_div_mod_converse(1860286527669638041807443int, 5int, 372057305533927608361488int, 3int);
    assert(div_toward_zero(1860286527669638041807443int, 5int) == 372057305533927608361488int);
    assert(atanh_series(u, 145126895311091802727778466int, 11370188389840768080874004966int, 3) == atanh_series(u, 1860286527669638041807443int, 11370560447146302008482366454int, 5));
    assert(1860286527669638041807443int * u == 21061815742636599876448139278110560800540277219787792int);
    lemma_fundamental_div_mod_converse(21061815742636599876448139278110560800540277219787792int, 100000000000000000000000000000int, 210618157426365998764481int, 39278110560800540277219787792int);
    assert(div_toward_zero(21061815742636599876448139278110560800540277219787792int, 100000000000000000000000000000int) == 210618157426365998764481int);
    assert(210618157426365998764481int * u == 2384579341831111402027796941420959617346808299257264int);
    lemma_fundamental_div_mod_converse(2384579341831111402027796941420959617346808299257264int, 100000000000000000000000000000int, 23845793418311114020277int, 96941420959617346808299257264int);
    assert(div_toward_zero(2384579341831111402027796941420959617346808299257264int, 100000000000000000000000000000int) == 23845793418311114020277int);
    assert(next_power(u, 1860286527669638041807443int) == 23845793418311114020277int);
    lemma_fundamental_div_mod_converse(23845793418311114020277int, 7int, 3406541916901587717182int, 3int);
    assert(div_toward_zero(23845793418311114020277int, 7int) == 3406541916901587717182int);
    assert(atanh_series(u, 1860286527669638041807443int, 11370560447146302008482366454int, 5) == atanh_series(u, 23845793418311114020277int, 11370563853688218910070083636int, 7));
    assert(23845793418311114020277int * u == 269977608149746044264329947586509138231013560043888int);
    lemma_fundamental_div_mod_converse(269977608149746044264329947586509138231013560043888int, 100000000000000000000000000000int, 2699776081497460442643int, 29947586509138231013560043888int);
    assert(div_toward_zero(269977608149746044264329947586509138231013560043888int, 100000000000000000000000000000int) == 2699776081497460442643int);
    assert(2699776081497460442643int * u == 30566359283431270815229571146965292626522405656592int);
    lemma_fundamental_div_mod_converse(30566359283431270815229571146965292626522405656592int, 100000000000000000000000000000int, 305663592834312708152int, 29571146965292626522405656592int);
    assert(div_toward_zero(30566359283431270815229571146965292626522405656592int, 100000000000000000000000000000int) == 305663592834312708152int);
    assert(next_power(u, 23845793418311114020277int) == 305663592834312708152int);
    lemma_fundamental_div_mod_converse(305663592834312708152int, 9int, 33962621426034745350int, 2int);
    assert(div_toward_zero(305663592834312708152int, 9int) == 33962621426034745350int);
    assert(atanh_series(u, 23845793418311114020277int, 11370563853688218910070083636int, 7) == atanh_series(u, 305663592834312708152int, 11370563887650840336104828986int, 9));
    assert(305663592834312708152int * u == 3460665965029158983726635413424645222012700597888int);
    lemma_fundamental_div_mod_converse(3460665965029158983726635413424645222012700597888int, 100000000000000000000000000000int, 34606659650291589837int, 26635413424645222012700597888int);
    assert(div_toward_zero(3460665965029158983726635413424645222012700597888int, 100000000000000000000000000000int) == 34606659650291589837int);
    assert(34606659650291589837int * u == 391810120742871592577092243645925167166148780528int);
    lemma_fundamental_div_mod_converse(391810120742871592577092243645925167166148780528int, 100000000000000000000000000000int, 3918101207428715925int, 77092243645925167166148780528int);
    assert(div_toward_zero(391810120742871592577092243645925167166148780528int, 100000000000000000000000000000int) == 3918101207428715925int);
    assert(next_power(u, 305663592834312708152int) == 3918101207428715925int);
    lemma_fundamental_div_mod_converse(3918101207428715925int, 11int, 356191018857155993int, 2int);
    assert(div_toward_zero(3918101207428715925int, 11int) == 356191018857155993int);
    assert(atanh_series(u, 305663592834312708152int, 11370563887650840336104828986int, 9) == atanh_series(u, 3918101207428715925int, 11370563888007031354961984979int, 11));
    assert(3918101207428715925int * u == 44360008237677490907147295434367779299371193200int);
    lemma_fundamental_div_mod_converse(44360008237677490907147295434367779299371193200int, 100000000000000000000000000000int, 443600082376774909int, 7147295434367779299371193200int);
    assert(div_toward_zero(44360008237677490907147295434367779299371193200int, 100000000000000000000000000000int) == 443600082376774909int);
    assert(443600082376774909int * u == 5022357072134452412855849988794468775097094896int);
    lemma_fundamental_div_mod_converse(5022357072134452412855849988794468775097094896int, 100000000000000000000000000000int, 50223570721344524int, 12855849988794468775097094896int);
    assert(div_toward_zero(5022357072134452412855849988794468775097094896int, 100000000000000000000000000000int) == 50223570721344524int);
    assert(next_power(u, 3918101207428715925int) == 50223570721344524int);
    lemma_fundamental_div_mod_converse(50223570721344524int, 13int, 3863351593949578int, 10int);
    assert(div_toward_zero(50223570721344524int, 13int) == 3863351593949578int);
    assert(atanh_series(u, 3918101207428715925int, 11370563888007031354961984979int, 11) == atanh_series(u, 50223570721344524int, 11370563888010894706555934557int, 13));
    assert(50223570721344524int * u == 568621863748769642374055829652496276461499456int);
    lemma_fundamental_div_mod_converse(568621863748769642374055829652496276461499456int, 100000000000000000000000000000int, 5686218637487696int, 42374055829652496276461499456int);
    assert(div_toward_zero(568621863748769642374055829652496276461499456int, 100000000000000000000000000000int) == 5686218637487696int);
    assert(5686218637487696int * u == 64378302715085907011557520323536480904980224int);
    lemma_fundamental_div_mod_converse(64378302715085907011557520323536480904980224int, 100000000000000000000000000000int, 643783027150859int, 7011557520323536480904980224int);
    assert(div_toward_zero(64378302715085907011557520323536480904980224int, 100000000000000000000000000000int) == 643783027150859int);
    assert(next_power(u, 50223570721344524int) == 643783027150859int);
    lemma_fundamental_div_mod_converse(643783027150859int, 15int, 42918868476723int, 14int);
    assert(div_toward_zero(643783027150859int, 15int) == 42918868476723int);
    assert(atanh_series(u, 50223570721344524int, 11370563888010894706555934557int, 13) == atanh_series(u, 643783027150859int, 11370563888010937625424411280int, 15));
    assert(643783027150859int * u == 7288790890225780811501465462505548092631696int);
    lemma_fundamental_div_mod_converse(7288790890225780811501465462505548092631696int, 100000000000000000000000000000int, 72887908902257int, 80811501465462505548092631696int);
    assert(div_toward_zero(7288790890225780811501465462505548092631696int, 100000000000000000000000000000int) == 72887908902257int);
    assert(72887908902257int * u == 825223256918646688620817512389172778809008int);
    lemma_fundamental_div_mod_converse(825223256918646688620817512389172778809008int, 100000000000000000000000000000int, 8252232569186int, 46688620817512389172778809008int);
    assert(div_toward_zero(825223256918646688620817512389172778809008int, 100000000000000000000000000000int) == 8252232569186int);
    assert(next_power(u, 643783027150859int) == 8252232569186int);
    lemma_fundamental_div_mod_converse(8252232569186int, 17int, 485425445246int, 4int);
    assert(div_toward_zero(8252232569186int, 17int) == 485425445246int);
    assert(atanh_series(u, 643783027150859int, 11370563888010937625424411280int, 15) == atanh_series(u, 8252232569186int, 11370563888010938110849856526int, 17));
    assert(8252232569186int * u == 93430231984374163866825486104452360594784int);
    lemma_fundamental_div_mod_converse(93430231984374163866825486104452360594784int, 100000000000000000000000000000int, 934302319843int, 74163866825486104452360594784int);
    assert(div_toward_zero(93430231984374163866825486104452360594784int, 100000000000000000000000000000int) == 934302319843int);
    assert(934302319843int * u == 10577995924693252714518295099994242373392int);
    lemma_fundamental_div_mod_converse(10577995924693252714518295099994242373392int, 100000000000000000000000000000int, 105779959246int, 93252714518295099994242373392int);
    assert(div_toward_zero(10577995924693252714518295099994242373392int, 100000000000000000000000000000int) == 105779959246int);
    assert(next_power(u, 8252232569186int) == 105779959246int);
    lemma_fundamental_div_mod_converse(105779959246int, 19int, 5567366276int, 2int);
    assert(div_toward_zero(105779959246int, 19int) == 5567366276int);
    assert(atanh_series(u, 8252232569186int, 11370563888010938110849856526int, 17) == atanh_series(u, 105779959246int, 11370563888010938116417222802int, 19));
    assert(105779959246int * u == 1197620892139530208229420184775749483424int);
    lemma_fundamental_div_mod_converse(1197620892139530208229420184775749483424int, 100000000000000000000000000000int, 11976208921int, 39530208229420184775749483424int);
    assert(div_toward_zero(1197620892139530208229420184775749483424int, 100000000000000000000000000000int) == 11976208921int);
    assert(11976208921int * u == 135592394955094388886962510217800536624int);
    lemma_fundamental_div_mod_converse(135592394955094388886962510217800536624int, 100000000000000000000000000000int, 1355923949int, 55094388886962510217800536624int);
    assert(div_toward_zero(135592394955094388886962510217800536624int, 100000000000000000000000000000int) == 1355923949int);
    assert(next_power(u, 105779959246int) == 1355923949int);
    lemma_fundamental_div_mod_converse(1355923949int, 21int, 64567807int, 2int);
    assert(div_toward_zero(1355923949int, 21int) == 64567807int);
    assert(atanh_series(u, 105779959246int, 11370563888010938116417222802int, 19) == atanh_series(u, 1355923949int, 11370563888010938116481790609int, 21));
    assert(1355923949int * u == 15351517064761404010526439401739036656int);
    lemma_fundamental_div_mod_converse(15351517064761404010526439401739036656int, 100000000000000000000000000000int, 153515170int, 64761404010526439401739036656int);
    assert(div_toward_zero(15351517064761404010526439401739036656int, 100000000000000000000000000000int) == 153515170int);
    assert(153515170int * u == 1738070010263346964538826162626224480int);
    lemma_fundamental_div_mod_converse(1738070010263346964538826162626224480int, 100000000000000000000000000000int, 17380700int, 10263346964538826162626224480int);
    assert(div_toward_zero(1738070010263346964538826162626224480int, 100000000000000000000000000000int) == 17380700int);
    assert(next_power(u, 1355923949int) == 17380700int);
    lemma_fundamental_div_mod_converse(17380700int, 23int, 755682int, 14int);
    assert(div_toward_zero(17380700int, 23int) == 755682int);
    assert(atanh_series(u, 1355923949int, 11370563888010938116481790609int, 21) == atanh_series(u, 17380700int, 11370563888010938116482546291int, 23));
    assert(17380700int * u == 196781031004194273351356585051220800int);
    lemma_fundamental_div_mod_converse(196781031004194273351356585051220800int, 100000000000000000000000000000int, 1967810int, 31004194273351356585051220800int);
    assert(div_toward_zero(196781031004194273351356585051220800int, 100000000000000000000000000000int) == 1967810int);
    assert(1967810int * u == 22279176363458521983782759131084640int);
    lemma_fundamental_div_mod_converse(22279176363458521983782759131084640int, 100000000000000000000000000000int, 222791int, 76363458521983782759131084640int);
    assert(div_toward_zero(22279176363458521983782759131084640int, 100000000000000000000000000000int) == 222791int);
    assert(next_power(u, 17380700int) == 222791int);
    lemma_fundamental_div_mod_converse(222791int, 25int, 8911int, 16int);
    assert(div_toward_zero(222791int, 25int) == 8911int);
    assert(atanh_series(u, 17380700int, 11370563888010938116482546291int, 23) == atanh_series(u, 222791int, 11370563888010938116482555202int, 25));
    assert(222791int * u == 2522397986183263410232158942973904int);
    lemma_fundamental_div_mod_converse(2522397986183263410232158942973904int, 100000000000000000000000000000int, 25223int, 97986183263410232158942973904int);
    assert(div_toward_zero(2522397986183263410232158942973904int, 100000000000000000000000000000int) == 25223int);
    assert(25223int * u == 285570083196809803790484108508112int);
    lemma_fundamental_div_mod_converse(285570083196809803790484108508112int, 100000000000000000000000000000int, 2855int, 70083196809803790484108508112int);
    assert(div_toward_zero(285570083196809803790484108508112int, 100000000000000000000000000000int) == 2855int);
    assert(next_power(u, 222791int) == 2855int);
    lemma_fundamental_div_mod_converse(2855int, 27int, 105int, 20int);
    assert(div_toward_zero(2855int, 27int) == 105int);
    assert(atanh_series(u, 222791int, 11370563888010938116482555202int, 25) == atanh_series(u, 2855int, 11370563888010938116482555307int, 27));
    assert(2855int * u == 32323775424291003838632681671120int);
    lemma_fundamental_div_mod_converse(32323775424291003838632681671120int, 100000000000000000000000000000int, 323int, 23775424291003838632681671120int);
    assert(div_toward_zero(32323775424291003838632681671120int, 100000000000000000000000000000int) == 323int);
    assert(323int * u == 3656945520856740539361946122512int);
    lemma_fundamental_div_mod_converse(3656945520856740539361946122512int, 100000000000000000000000000000int, 36int, 56945520856740539361946122512int);
    assert(div_toward_zero(3656945520856740539361946122512int, 100000000000000000000000000000int) == 36int);
    assert(next_power(u, 2855int) == 36int);
    lemma_fundamental_div_mod_converse(36int, 29int, 1int, 7int);
    assert(div_toward_zero(36int, 29int) == 1int);
    assert(atanh_series(u, 2855int, 11370563888010938116482555307int, 27) == atanh_series(u, 36int, 11370563888010938116482555308int, 29));
    assert(36int * u == 407585259290534549278730837184int);
    lemma_fundamental_div_mod_converse(407585259290534549278730837184int, 100000000000000000000000000000int, 4int, 7585259290534549278730837184int);
    assert(div_toward_zero(407585259290534549278730837184int, 100000000000000000000000000000int) == 4int);
    assert(4int * u == 45287251032281616586525648576int);
    lemma_fundamental_div_mod_converse(45287251032281616586525648576int, 100000000000000000000000000000int, 0int, 45287251032281616586525648576int);
    assert(div_toward_zero(45287251032281616586525648576int, 100000000000000000000000000000int) == 0int);
    assert(next_power(u, 36int) == 0int);
    lemma_fundamental_div_mod_converse(0int, 31int, 0int, 0int);
    assert(div_toward_zero(0int, 31int) == 0int);
    assert(atanh_series(u, 36int, 11370563888010938116482555308int, 29) == 11370563888010938116482555308int);
    assert(ln_inner(200855369231876677409int) == 299999999999999999999857959200int);
    lemma_fundamental_div_mod_converse(300000000000000000004857959200int, 10000000000int, 30000000000000000000int, 4857959200int);
    assert(round_to_step(299999999999999999999857959200int) == 30000000000000000000int);
}

} // verus!
