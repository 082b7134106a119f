//! Integer division that rounds toward zero, and the facts about it that the
//! field kernels rest on.

use vstd::prelude::*;

verus! {

/// The quotient of `n` by a positive `d`, rounded toward zero.
pub open spec fn trunc_div(n: int, d: int) -> int {
    if n >= 0 {
        n / d
    } else {
        -((-n) / d)
    }
}

/// The magnitude of an integer.
pub open spec fn magnitude(n: int) -> int {
    if n >= 0 {
        n
    } else {
        -n
    }
}

/// `v` held between `low` and `high`.
pub open spec fn clamped(v: int, low: int, high: int) -> int {
    if v < low {
        low
    } else if v > high {
        high
    } else {
        v
    }
}

/// Division toward zero is odd in its numerator.
pub proof fn lemma_trunc_div_odd(n: int, d: int)
    requires
        d > 0,
    ensures
        trunc_div(-n, d) == -trunc_div(n, d),
{
    if n == 0 {
        assert(0int / d == 0) by (nonlinear_arith)
            requires
                d > 0,
        ;
    }
}

/// The quotient is no larger in magnitude than `bound` whenever the numerator
/// is no larger in magnitude than `bound * d`.
pub proof fn lemma_trunc_div_bound(n: int, d: int, bound: int)
    requires
        d > 0,
        bound >= 0,
        magnitude(n) <= bound * d,
    ensures
        magnitude(trunc_div(n, d)) <= bound,
{
    let m = magnitude(n);
    assert(0 <= m / d <= bound) by (nonlinear_arith)
        requires
            d > 0,
            0 <= m <= bound * d,
    ;
}

/// A number times a factor of magnitude at most `d`, divided by `d`, is no
/// larger in magnitude than the number.
pub proof fn lemma_trunc_div_share(j: int, s: int, d: int)
    requires
        d > 0,
        -d <= s <= d,
    ensures
        magnitude(trunc_div(j * s, d)) <= magnitude(j),
{
    let m = magnitude(j);
    assert(magnitude(j * s) <= m * d) by (nonlinear_arith)
        requires
            m == magnitude(j),
            -d <= s <= d,
            d > 0,
    ;
    lemma_trunc_div_bound(j * s, d, m);
}

/// Scaling the numerator by an integer `k` scales the quotient by `k`, up to
/// fewer than `|k|` units: the part that rounding toward zero cut off is
/// scaled too, and may add up to whole units.
pub proof fn lemma_trunc_div_scales(n: int, d: int, k: int)
    requires
        d > 0,
    ensures
        k == 0 ==> trunc_div(k * n, d) == 0,
        k != 0 ==> magnitude(trunc_div(k * n, d) - k * trunc_div(n, d)) <= magnitude(k) - 1,
{
    let mn = magnitude(n);
    let mk = magnitude(k);
    let q = mn / d;
    let r = mn % d;
    assert(magnitude(k * n) == mk * mn) by (nonlinear_arith)
        requires
            mn == magnitude(n),
            mk == magnitude(k),
    ;
    assert(mn == q * d + r && 0 <= r < d) by (nonlinear_arith)
        requires
            d > 0,
            q == mn / d,
            r == mn % d,
    ;
    let big = (mk * mn) / d;
    assert(mk * q <= big && (mk > 0 ==> big <= mk * q + mk - 1)) by (nonlinear_arith)
        requires
            d > 0,
            mk >= 0,
            mn == q * d + r,
            0 <= r < d,
            big == (mk * mn) / d,
    ;
    assert(0int / d == 0) by (nonlinear_arith)
        requires
            d > 0,
    ;
    lemma_product_sign(k, n);
    if k != 0 {
        let tq = trunc_div(n, d);
        lemma_product_sign(k, tq);
        assert(magnitude(tq) == q);
        assert(magnitude(trunc_div(k * n, d)) == big);
        assert(magnitude(k * tq) == mk * q) by (nonlinear_arith)
            requires
                magnitude(tq) == q,
                mk == magnitude(k),
        ;
        if q == 0 {
            assert(mk * q == 0);
        }
    }
}

/// The sign of a product, from the signs of its factors.
proof fn lemma_product_sign(k: int, n: int)
    ensures
        (k == 0 || n == 0) ==> k * n == 0,
        (k > 0 && n > 0) || (k < 0 && n < 0) ==> k * n > 0,
        (k > 0 && n < 0) || (k < 0 && n > 0) ==> k * n < 0,
{
    assert((k == 0 || n == 0) ==> k * n == 0) by (nonlinear_arith);
    assert((k > 0 && n > 0) || (k < 0 && n < 0) ==> k * n > 0) by (nonlinear_arith);
    assert((k > 0 && n < 0) || (k < 0 && n > 0) ==> k * n < 0) by (nonlinear_arith);
}

/// The magnitude of `v`.
pub fn magnitude_of(v: i128) -> (r: u128)
    requires
        v > i128::MIN,
    ensures
        r == magnitude(v as int),
{
    if v >= 0 {
        v as u128
    } else {
        (-v) as u128
    }
}

/// Divides `n` by a positive `d`, rounding toward zero.
pub fn div_toward_zero(n: i128, d: i128) -> (q: i128)
    requires
        d > 0,
    ensures
        q == trunc_div(n as int, d as int),
{
    n / d
}

} // verus!
