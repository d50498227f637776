//! Decimal fixed-point arithmetic: a value is an `i64` counting millionths.
//!
//! `SCALE` raw units stand for the real number one. Multiplication and
//! division truncate toward zero, as the specification functions here state
//! exactly. Results that leave the `i64` range are reported as `None`; the
//! callers treat such a value as a degenerate numeric outcome.

use vstd::prelude::*;

verus! {

/// Raw units per one: fixed-point values count millionths.
pub const SCALE: i64 = 1000000;

/// Largest magnitude allowed for a transform parameter, a weight or a color
/// channel (one hundred twenty-eight, in fixed-point units). Keeping parameters inside
/// this range lets interpolation work without overflow checks.
pub const PARAM_LIMIT: i64 = 128000000;

/// Largest magnitude a point coordinate may reach (one million, in
/// fixed-point units). A map application whose result would leave this range
/// is reported as degenerate, like a non-finite floating-point coordinate.
pub const POINT_LIMIT: i64 = 1000000000000;

/// Truncating (toward zero) division, for a positive divisor.
pub open spec fn tdiv(x: int, d: int) -> int {
    if x >= 0 {
        x / d
    } else {
        -((-x) / d)
    }
}

/// The exact value of a fixed-point product: the integer product of the
/// raw values, scaled back down with truncation toward zero.
pub open spec fn fmul(a: int, b: int) -> int {
    tdiv(a * b, SCALE as int)
}

/// The exact value of a fixed-point quotient `a / b`: the numerator is
/// scaled up before the truncating division.
pub open spec fn fdiv(a: int, b: int) -> int {
    if b >= 0 {
        tdiv(a * SCALE, b)
    } else {
        tdiv(-(a * SCALE), -b)
    }
}

pub open spec fn in64(x: int) -> bool {
    i64::MIN <= x <= i64::MAX
}

/// Truncating division never grows the magnitude of its argument.
pub proof fn lemma_tdiv_shrinks(x: int, d: int)
    requires
        d >= 1,
    ensures
        x >= 0 ==> 0 <= tdiv(x, d) <= x,
        x < 0 ==> x <= tdiv(x, d) <= 0,
{
    if x >= 0 {
        assert(0 <= x / d <= x) by (nonlinear_arith)
            requires
                x >= 0,
                d >= 1,
        ;
    } else {
        assert(0 <= (-x) / d <= -x) by (nonlinear_arith)
            requires
                -x >= 0,
                d >= 1,
        ;
    }
}

/// Truncating division is monotone in the numerator.
pub proof fn lemma_tdiv_mono(x: int, y: int, d: int)
    requires
        d >= 1,
        x <= y,
    ensures
        tdiv(x, d) <= tdiv(y, d),
{
    assert((x >= 0 && y >= 0) ==> x / d <= y / d) by (nonlinear_arith)
        requires
            d >= 1,
            x <= y,
    ;
    assert((x < 0 && y < 0) ==> (-y) / d <= (-x) / d) by (nonlinear_arith)
        requires
            d >= 1,
            x <= y,
    ;
    if x < 0 && y >= 0 {
        lemma_tdiv_shrinks(x, d);
        lemma_tdiv_shrinks(y, d);
    }
}

/// A fixed-point product of bounded factors is bounded by the scaled
/// product of the bounds.
pub proof fn lemma_fmul_bound(a: int, b: int, ba: int, bb: int)
    requires
        0 <= ba,
        0 <= bb,
        -ba <= a <= ba,
        -bb <= b <= bb,
    ensures
        -tdiv(ba * bb, SCALE as int) <= fmul(a, b) <= tdiv(ba * bb, SCALE as int),
{
    assert(-(ba * bb) <= a * b <= ba * bb) by (nonlinear_arith)
        requires
            0 <= ba,
            0 <= bb,
            -ba <= a <= ba,
            -bb <= b <= bb,
    ;
    lemma_tdiv_mono(a * b, ba * bb, SCALE as int);
    lemma_tdiv_mono(-(ba * bb), a * b, SCALE as int);
    assert(tdiv(-(ba * bb), SCALE as int) == -tdiv(ba * bb, SCALE as int));
}

/// Scaling by a fraction of one keeps a value between zero and itself.
pub proof fn lemma_fmul_pct(d: int, pct: int)
    requires
        0 <= pct <= SCALE,
    ensures
        d >= 0 ==> 0 <= fmul(d, pct) <= d,
        d < 0 ==> d <= fmul(d, pct) <= 0,
{
    assert(d >= 0 ==> 0 <= d * pct <= d * SCALE) by (nonlinear_arith)
        requires
            0 <= pct <= SCALE,
    ;
    assert(d < 0 ==> d * SCALE <= d * pct <= 0) by (nonlinear_arith)
        requires
            0 <= pct <= SCALE,
    ;
    lemma_tdiv_shrinks(d * pct, SCALE as int);
    if d >= 0 {
        lemma_tdiv_mono(d * pct, d * SCALE, SCALE as int);
        assert(tdiv(d * SCALE, SCALE as int) == d) by (nonlinear_arith);
    } else {
        lemma_tdiv_mono(d * SCALE, d * pct, SCALE as int);
        assert(tdiv(d * SCALE, SCALE as int) == d) by (nonlinear_arith);
    }
}

/// Fixed-point multiplication; `None` when the true result does not fit in
/// an `i64`.
pub fn fix_mul(a: i64, b: i64) -> (r: Option<i64>)
    ensures
        r is Some <==> in64(fmul(a as int, b as int)),
        r is Some ==> r->0 == fmul(a as int, b as int),
{
    proof {
        assert(i128::MIN <= (a as int) * (b as int) <= i128::MAX) by (nonlinear_arith)
            requires
                i64::MIN <= a <= i64::MAX,
                i64::MIN <= b <= i64::MAX,
        ;
    }
    let p: i128 = (a as i128) * (b as i128);
    let q: i128 = p / (SCALE as i128);
    proof {
        assert(q == tdiv(a as int * b as int, SCALE as int));
    }
    if q >= i64::MIN as i128 && q <= i64::MAX as i128 {
        Some(q as i64)
    } else {
        None
    }
}

/// Fixed-point division; `None` when the divisor is zero or the true result
/// does not fit in an `i64`.
pub fn fix_div(a: i64, b: i64) -> (r: Option<i64>)
    ensures
        b == 0 ==> r is None,
        b != 0 ==> (r is Some <==> in64(fdiv(a as int, b as int))),
        r is Some ==> r->0 == fdiv(a as int, b as int),
{
    if b == 0 {
        return None;
    }
    proof {
        assert(i128::MIN <= (a as int) * (SCALE as int) <= i128::MAX) by (nonlinear_arith)
            requires
                i64::MIN <= a <= i64::MAX,
        ;
    }
    let num: i128 = (a as i128) * (SCALE as i128);
    let q: i128 = match num.checked_div(b as i128) {
        Some(q) => q,
        None => vstd::pervasive::unreached(),
    };
    proof {
        assert(q == fdiv(a as int, b as int));
    }
    if q >= i64::MIN as i128 && q <= i64::MAX as i128 {
        Some(q as i64)
    } else {
        None
    }
}

/// Linear interpolation from `a` (at zero) to `b` (at one): the result is
/// `a` plus the scaled difference, so both endpoints are met exactly.
pub open spec fn lerp_spec(a: int, b: int, pct: int) -> int {
    a + fmul(b - a, pct)
}

/// Fixed-point linear interpolation between bounded values.
pub fn lerp(a: i64, b: i64, pct: i64) -> (r: i64)
    requires
        -PARAM_LIMIT <= a <= PARAM_LIMIT,
        -PARAM_LIMIT <= b <= PARAM_LIMIT,
        0 <= pct <= SCALE,
    ensures
        r == lerp_spec(a as int, b as int, pct as int),
        a <= b ==> a <= r <= b,
        b <= a ==> b <= r <= a,
{
    let d = b - a;
    proof {
        lemma_fmul_pct(d as int, pct as int);
    }
    let m = match fix_mul(d, pct) {
        Some(m) => m,
        None => vstd::pervasive::unreached(),
    };
    a + m
}

/// `r` is the integer square root of `n`: the greatest integer whose square
/// does not exceed `n`.
pub open spec fn is_sqrt(n: int, r: int) -> bool {
    0 <= r && r * r <= n && n < (r + 1) * (r + 1)
}

/// The integer square root as a function, defined by its characteristic
/// property; `lemma_sqrt_exists` shows the property always holds of it.
pub open spec fn sqrt_floor(n: int) -> int {
    choose|r: int| is_sqrt(n, r)
}

/// Two integers with the square-root property are equal.
pub proof fn lemma_sqrt_unique(n: int, r1: int, r2: int)
    requires
        is_sqrt(n, r1),
        is_sqrt(n, r2),
    ensures
        r1 == r2,
{
    assert(r1 == r2) by (nonlinear_arith)
        requires
            0 <= r1 && r1 * r1 <= n && n < (r1 + 1) * (r1 + 1),
            0 <= r2 && r2 * r2 <= n && n < (r2 + 1) * (r2 + 1),
    ;
}

/// Every nonnegative integer has a square root, so `sqrt_floor` satisfies
/// its defining property.
pub proof fn lemma_sqrt_exists(n: int)
    requires
        n >= 0,
    ensures
        is_sqrt(n, sqrt_floor(n)),
    decreases n,
{
    if n == 0 {
        assert(is_sqrt(0, 0));
    } else {
        lemma_sqrt_exists(n - 1);
        let r = sqrt_floor(n - 1);
        if n < (r + 1) * (r + 1) {
            assert(is_sqrt(n, r));
        } else {
            assert(n < (r + 2) * (r + 2)) by (nonlinear_arith)
                requires
                    0 <= r,
                    n - 1 < (r + 1) * (r + 1),
            ;
            assert(is_sqrt(n, r + 1));
        }
    }
}

/// The integer square root is monotone.
pub proof fn lemma_sqrt_mono(n1: int, n2: int)
    requires
        0 <= n1 <= n2,
    ensures
        sqrt_floor(n1) <= sqrt_floor(n2),
{
    lemma_sqrt_exists(n1);
    lemma_sqrt_exists(n2);
    let r1 = sqrt_floor(n1);
    let r2 = sqrt_floor(n2);
    assert(r1 <= r2) by (nonlinear_arith)
        requires
            0 <= r1 && r1 * r1 <= n1 && n1 < (r1 + 1) * (r1 + 1),
            0 <= r2 && r2 * r2 <= n2 && n2 < (r2 + 1) * (r2 + 1),
            n1 <= n2,
    ;
}

/// A bound on the radicand gives a bound on the root.
pub proof fn lemma_sqrt_bound(n: int, b: int)
    requires
        0 <= n,
        0 <= b,
        n < b * b,
    ensures
        sqrt_floor(n) < b,
{
    lemma_sqrt_exists(n);
    let r = sqrt_floor(n);
    assert(r < b) by (nonlinear_arith)
        requires
            0 <= r && r * r <= n,
            n < b * b,
            0 <= b,
    ;
}

/// Integer square root by binary search.
pub fn isqrt(n: u128) -> (r: u64)
    ensures
        is_sqrt(n as int, r as int),
        r as int == sqrt_floor(n as int),
{
    let mut lo: u64 = 0;
    let mut hi: u64 = u64::MAX;
    proof {
        assert((hi as int + 1) * (hi as int + 1) > u128::MAX as int) by (nonlinear_arith)
            requires
                hi == u64::MAX,
        ;
    }
    while lo < hi
        invariant
            lo <= hi,
            (lo as int) * (lo as int) <= n as int,
            (n as int) < (hi as int + 1) * (hi as int + 1),
        decreases hi - lo,
    {
        let mid: u64 = (((lo as u128) + (hi as u128) + 1) / 2) as u64;
        proof {
            assert((mid as int) * (mid as int) <= u128::MAX as int) by (nonlinear_arith)
                requires
                    0 <= mid <= u64::MAX,
            ;
        }
        let sq: u128 = (mid as u128) * (mid as u128);
        if sq <= n {
            lo = mid;
        } else {
            hi = mid - 1;
        }
    }
    proof {
        assert(is_sqrt(n as int, lo as int));
        lemma_sqrt_exists(n as int);
        lemma_sqrt_unique(n as int, lo as int, sqrt_floor(n as int));
    }
    lo
}

/// The square root of a fixed-point value: the radicand is scaled up so the
/// result carries the same fixed-point scale.
pub open spec fn fsqrt(x: int) -> int {
    sqrt_floor(x * SCALE)
}

/// Fixed-point square root of a nonnegative value.
pub fn fix_sqrt(x: i64) -> (r: i64)
    requires
        x >= 0,
    ensures
        r == fsqrt(x as int),
        0 <= r < 4000000000000,
{
    proof {
        assert((x as int) * (SCALE as int) <= (i64::MAX as int) * (SCALE as int)) by (nonlinear_arith)
            requires
                0 <= x <= i64::MAX,
        ;
    }
    let n: u128 = (x as u128) * (SCALE as u128);
    let r = isqrt(n);
    proof {
        let b: int = 4000000000000;
        assert((n as int) < b * b) by (nonlinear_arith)
            requires
                b == 4000000000000,
                n as int <= (i64::MAX as int) * (SCALE as int),
        ;
        lemma_sqrt_bound(n as int, b);
    }
    r as i64
}

} // verus!
