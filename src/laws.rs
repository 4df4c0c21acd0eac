//! Algebraic laws of the arithmetic, stated over the representations that the operations'
//! contracts speak of.
use vstd::prelude::*;

use vstd::arithmetic::div_mod::{lemma_fundamental_div_mod, lemma_mod_bound};

use crate::dec19x19::{div_toward_zero, in_range, neg_repr, scale};
use crate::i128_ops::mag;
use crate::mul::mul_repr;

verus! {

/// Adding or subtracting zero changes nothing.
pub proof fn lemma_additive_identity(x: i128)
    ensures
        in_range(x + 0) && x + 0 == x,
        in_range(x - 0) && x - 0 == x,
{
}

/// A value plus its negation is zero, for every value but `MIN` (whose negation saturates).
pub proof fn lemma_additive_inverse(x: i128)
    requires
        x != i128::MIN,
    ensures
        in_range(x + neg_repr(x as int)),
        x + neg_repr(x as int) == 0,
{
}

/// Addition and multiplication do not depend on the order of the operands.
pub proof fn lemma_commutative(x: i128, y: i128)
    ensures
        x + y == y + x,
        mul_repr(x as int, y as int) == mul_repr(y as int, x as int),
{
    assert(mag(x as int) * mag(y as int) == mag(y as int) * mag(x as int)) by (nonlinear_arith);
}

/// Addition is associative where both groupings stay in range.
pub proof fn lemma_add_associative(x: i128, y: i128, z: i128)
    requires
        in_range(x + y),
        in_range(y + z),
        in_range(x + y + z),
    ensures
        (x + y) + z == x + (y + z),
{
}

/// The product of the representations is the representation of the product, divided by the
/// scale and rounded toward zero.
pub proof fn lemma_mul_repr_signed(a: int, b: int)
    ensures
        mul_repr(a, b) == div_toward_zero(a * b, scale()),
{
    assert(mag(a * b) == mag(a) * mag(b) && ((a * b < 0) <==> (a != 0 && b != 0 && ((a < 0)
        != (b < 0))))) by (nonlinear_arith);
    if mag(a) * mag(b) == 0 {
        assert(mag(a) * mag(b) / scale() == 0);
    }
}

proof fn lemma_exact_quotient(p: int)
    requires
        p % scale() == 0,
    ensures
        div_toward_zero(p, scale()) * scale() == p,
{
    let s = scale();
    lemma_fundamental_div_mod(p, s);
    if p < 0 {
        lemma_fundamental_div_mod(-p, s);
        lemma_mod_bound(-p, s);
        let q = p / s;
        assert(-p == (-q) * s + 0) by (nonlinear_arith)
            requires
                p == s * q,
        ;
        vstd::arithmetic::div_mod::lemma_fundamental_div_mod_converse(-p, s, -q, 0);
        assert((-(-q)) * s == p) by (nonlinear_arith)
            requires
                p == s * q,
        ;
    } else {
        assert(p / s * s == p) by (nonlinear_arith)
            requires
                p == s * (p / s) + 0,
        ;
    }
}

/// Multiplication distributes over addition where the products are exact, that is where
/// `x * y` and `x * z` have no digits past the nineteenth fractional place. (Elsewhere each
/// product is rounded toward zero on its own, and the two sides may differ by a step.)
pub proof fn lemma_mul_distributive(x: i128, y: i128, z: i128)
    requires
        in_range(y + z),
        (x * y) % scale() == 0,
        (x * z) % scale() == 0,
    ensures
        mul_repr(x as int, y + z) == mul_repr(x as int, y as int) + mul_repr(x as int, z as int),
{
    let s = scale();
    lemma_mul_repr_signed(x as int, y as int);
    lemma_mul_repr_signed(x as int, z as int);
    lemma_mul_repr_signed(x as int, y + z);
    lemma_exact_quotient(x * y);
    lemma_exact_quotient(x * z);
    assert(x * (y + z) == x * y + x * z) by (nonlinear_arith);
    let (qy, qz) = (div_toward_zero(x * y, s), div_toward_zero(x * z, s));
    assert(x * (y + z) == (qy + qz) * s) by (nonlinear_arith)
        requires
            qy * s == x * y,
            qz * s == x * z,
            x * (y + z) == x * y + x * z,
    ;
    assert((x * (y + z)) % s == 0) by {
        vstd::arithmetic::div_mod::lemma_fundamental_div_mod_converse(x * (y + z), s, qy + qz, 0);
    }
    lemma_exact_quotient(x * (y + z));
    let q = div_toward_zero(x * (y + z), s);
    assert(q == qy + qz) by (nonlinear_arith)
        requires
            q * s == (qy + qz) * s,
            s > 0,
    ;
}

/// Rounding toward zero leaves a remainder smaller than the scale, with the sign of `p`.
proof fn lemma_toward_zero_remainder(p: int)
    ensures
        p >= 0 ==> 0 <= p - div_toward_zero(p, scale()) * scale() < scale(),
        p < 0 ==> -scale() < p - div_toward_zero(p, scale()) * scale() <= 0,
{
    let s = scale();
    let m = mag(p);
    lemma_fundamental_div_mod(m, s);
    lemma_mod_bound(m, s);
    let q = m / s;
    if p < 0 {
        assert(div_toward_zero(p, s) == -q);
        assert((-q) * s == -(q * s)) by (nonlinear_arith);
        assert(p - (-q) * s == -(m - q * s));
    } else {
        assert(div_toward_zero(p, s) == q);
    }
    assert(m - q * s == m % s) by (nonlinear_arith)
        requires
            m == s * q + m % s,
    ;
}

/// Multiplication distributes over addition to within one step: each product is rounded
/// toward zero on its own, so the two sides differ by at most the last digit.
pub proof fn lemma_mul_distributive_within_step(x: i128, y: i128, z: i128)
    requires
        in_range(y + z),
    ensures
        mag(mul_repr(x as int, y + z) - (mul_repr(x as int, y as int) + mul_repr(x as int, z as int)))
            <= 1,
{
    let s = scale();
    let (p, q) = (x * y, x * z);
    lemma_mul_repr_signed(x as int, y as int);
    lemma_mul_repr_signed(x as int, z as int);
    lemma_mul_repr_signed(x as int, y + z);
    assert(x * (y + z) == p + q) by (nonlinear_arith)
        requires
            p == x * y,
            q == x * z,
    ;
    lemma_toward_zero_remainder(p);
    lemma_toward_zero_remainder(q);
    lemma_toward_zero_remainder(p + q);
    let (tp, tq, tpq) = (div_toward_zero(p, s), div_toward_zero(q, s), div_toward_zero(p + q, s));
    let (rp, rq, rpq) = (p - tp * s, q - tq * s, p + q - tpq * s);
    let d = tpq - tp - tq;
    assert(d * s == rp + rq - rpq) by (nonlinear_arith)
        requires
            rp == p - tp * s,
            rq == q - tq * s,
            rpq == p + q - tpq * s,
            d == tpq - tp - tq,
    ;
    assert(-2 * s < d * s < 2 * s);
    assert(-1 <= d <= 1) by (nonlinear_arith)
        requires
            -2 * s < d * s < 2 * s,
            s > 0,
    ;
}

} // verus!
