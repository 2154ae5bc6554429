//! Fixed-point scalars: an `i64` counts `SCALE` steps per unit, so the
//! stored value `raw` denotes the number `raw / SCALE`.
//!
//! Every operation clips its mathematical result into the `i64` range, so
//! all operations are total and each executable function returns exactly
//! what its spec twin (`add_s`, `mul_s`, ...) computes.

use vstd::prelude::*;

verus! {

/// Steps per unit of a fixed-point scalar.
pub const SCALE: i64 = 65536;

/// Mathematical value clipped into the `i64` range.
pub open spec fn clip(v: int) -> int {
    if v > i64::MAX {
        i64::MAX as int
    } else if v < i64::MIN {
        i64::MIN as int
    } else {
        v
    }
}

pub open spec fn abs_i(v: int) -> int {
    if v >= 0 {
        v
    } else {
        -v
    }
}

/// Division rounding toward zero, as machine division does; `q != 0`.
pub open spec fn sdiv(p: int, q: int) -> int {
    if (p < 0) != (q < 0) {
        -(abs_i(p) / abs_i(q))
    } else {
        abs_i(p) / abs_i(q)
    }
}

pub open spec fn add_s(a: int, b: int) -> int {
    clip(a + b)
}

pub open spec fn sub_s(a: int, b: int) -> int {
    clip(a - b)
}

pub open spec fn neg_s(a: int) -> int {
    clip(-a)
}

/// Product of two fixed-point scalars: `(a * b) / SCALE`, rounded toward zero.
pub open spec fn mul_s(a: int, b: int) -> int {
    clip(sdiv(a * b, SCALE as int))
}

/// Quotient of two fixed-point scalars: `(a * SCALE) / b`, rounded toward zero; `b != 0`.
pub open spec fn div_s(a: int, b: int) -> int {
    clip(sdiv(a * (SCALE as int), b))
}

/// `r` is the integer square root of `n`.
pub open spec fn is_sqrt(n: int, r: int) -> bool {
    0 <= r && r * r <= n && n < (r + 1) * (r + 1)
}

pub open spec fn isqrt(n: int) -> int {
    choose|r: int| is_sqrt(n, r)
}

/// Square root of a fixed-point scalar: `sqrt(a / SCALE)` in fixed point is
/// `isqrt(a * SCALE)` raw steps. Nonpositive inputs yield zero.
pub open spec fn sqrt_s(a: int) -> int {
    if a <= 0 {
        0
    } else {
        isqrt(a * (SCALE as int))
    }
}

pub proof fn lemma_isqrt_unique(n: int, r: int)
    requires
        is_sqrt(n, r),
    ensures
        isqrt(n) == r,
{
    assert(is_sqrt(n, r));
    let c: int = choose|x: int| is_sqrt(n, x);
    assert(is_sqrt(n, c));
    assert(c == r) by (nonlinear_arith)
        requires
            is_sqrt(n, c),
            is_sqrt(n, r),
    ;
}

/// Every nonnegative integer has an integer square root, so `isqrt` denotes it.
pub proof fn lemma_isqrt_some(n: int)
    requires
        n >= 0,
    ensures
        is_sqrt(n, isqrt(n)),
    decreases n,
{
    if n == 0 {
        assert(is_sqrt(0, 0));
    } else {
        lemma_isqrt_some(n - 1);
        let r: int = isqrt(n - 1);
        if (r + 1) * (r + 1) <= n {
            assert(is_sqrt(n, r + 1)) by (nonlinear_arith)
                requires
                    is_sqrt(n - 1, r),
                    (r + 1) * (r + 1) <= n,
            ;
        } else {
            assert(is_sqrt(n, r));
        }
    }
}

proof fn lemma_i64_product_fits(a: int, b: int)
    by (nonlinear_arith)
    requires
        i64::MIN <= a <= i64::MAX,
        i64::MIN <= b <= i64::MAX,
    ensures
        -0x4000_0000_0000_0000_0000_0000_0000_0000 <= a * b,
        a * b <= 0x4000_0000_0000_0000_0000_0000_0000_0000,
{
}

/// A square root is never negative.
pub proof fn lemma_sqrt_s_nonneg(a: int)
    ensures
        sqrt_s(a) >= 0,
{
    if a > 0 {
        lemma_isqrt_some(a * (SCALE as int));
    }
}

/// Division rounding toward zero keeps the dividend's sign.
pub proof fn lemma_sdiv_sign(p: int, q: int)
    requires
        q > 0,
    ensures
        p >= 0 ==> sdiv(p, q) >= 0,
        p <= 0 ==> sdiv(p, q) <= 0,
{
    if p >= 0 {
        vstd::arithmetic::div_mod::lemma_div_pos_is_pos(p, q);
    } else {
        vstd::arithmetic::div_mod::lemma_div_pos_is_pos(-p, q);
    }
}

/// Division rounding toward zero by a positive divisor is monotone in the
/// dividend.
pub proof fn lemma_sdiv_monotone(p1: int, p2: int, q: int)
    requires
        p1 <= p2,
        q > 0,
    ensures
        sdiv(p1, q) <= sdiv(p2, q),
{
    if p1 >= 0 {
        vstd::arithmetic::div_mod::lemma_div_is_ordered(p1, p2, q);
    } else if p2 < 0 {
        vstd::arithmetic::div_mod::lemma_div_is_ordered(-p2, -p1, q);
    } else {
        lemma_sdiv_sign(p1, q);
        lemma_sdiv_sign(p2, q);
    }
}

/// Dividing a scalar by one unit gives the scalar back.
pub proof fn lemma_div_s_one(x: int)
    requires
        i64::MIN <= x <= i64::MAX,
    ensures
        div_s(x, SCALE as int) == x,
{
    if x >= 0 {
        vstd::arithmetic::div_mod::lemma_div_by_multiple(x, 65536);
        assert(abs_i(x * 65536) == x * 65536) by (nonlinear_arith)
            requires
                x >= 0,
        ;
    } else {
        vstd::arithmetic::div_mod::lemma_div_by_multiple(-x, 65536);
        assert(abs_i(x * 65536) == (-x) * 65536) by (nonlinear_arith)
            requires
                x < 0,
        ;
    }
}

/// A fixed-point product of two scalars of equal sign is never negative.
pub proof fn lemma_mul_s_nonneg(x: int, y: int)
    requires
        (x >= 0 && y >= 0) || (x <= 0 && y <= 0),
    ensures
        mul_s(x, y) >= 0,
{
    assert(x * y >= 0) by (nonlinear_arith)
        requires
            (x >= 0 && y >= 0) || (x <= 0 && y <= 0),
    ;
    lemma_sdiv_sign(x * y, SCALE as int);
}

fn clip64(v: i128) -> (r: i64)
    ensures
        r as int == clip(v as int),
{
    if v > i64::MAX as i128 {
        i64::MAX
    } else if v < i64::MIN as i128 {
        i64::MIN
    } else {
        v as i64
    }
}

pub fn fx_add(a: i64, b: i64) -> (r: i64)
    ensures
        r as int == add_s(a as int, b as int),
{
    clip64(a as i128 + b as i128)
}

pub fn fx_sub(a: i64, b: i64) -> (r: i64)
    ensures
        r as int == sub_s(a as int, b as int),
{
    clip64(a as i128 - b as i128)
}

pub fn fx_neg(a: i64) -> (r: i64)
    ensures
        r as int == neg_s(a as int),
{
    clip64(-(a as i128))
}

/// Divides `p` by the positive `q`, rounding toward zero.
fn div_toward_zero(p: i128, q: u128) -> (r: i128)
    requires
        0 < q,
        -0x4000_0000_0000_0000_0000_0000_0000_0000 <= p as int,
        p as int <= 0x4000_0000_0000_0000_0000_0000_0000_0000,
    ensures
        r as int == sdiv(p as int, q as int),
{
    if p >= 0 {
        let m: u128 = (p as u128) / q;
        assert(m <= p) by (nonlinear_arith)
            requires
                m as int == (p as int) / (q as int),
                p >= 0,
                q >= 1,
        ;
        m as i128
    } else {
        let m: u128 = ((-p) as u128) / q;
        assert(m as int <= -(p as int)) by (nonlinear_arith)
            requires
                m as int == (-(p as int)) / (q as int),
                p < 0,
                q >= 1,
        ;
        -(m as i128)
    }
}

pub fn fx_mul(a: i64, b: i64) -> (r: i64)
    ensures
        r as int == mul_s(a as int, b as int),
{
    proof {
        lemma_i64_product_fits(a as int, b as int);
    }
    let p: i128 = (a as i128) * (b as i128);
    let q: i128 = div_toward_zero(p, 65536);
    clip64(q)
}

pub fn fx_div(a: i64, b: i64) -> (r: i64)
    requires
        b != 0,
    ensures
        r as int == div_s(a as int, b as int),
{
    let p: i128 = (a as i128) * 65536;
    let bm: u128 = if b >= 0 {
        b as u128
    } else {
        (-(b as i128)) as u128
    };
    let q: i128 = div_toward_zero(p, bm);
    if b < 0 {
        clip64(-q)
    } else {
        clip64(q)
    }
}

pub fn fx_sqrt(a: i64) -> (r: i64)
    ensures
        r as int == sqrt_s(a as int),
{
    if a <= 0 {
        return 0;
    }
    let n: u128 = (a as u128) * 65536;
    let mut lo: u128 = 0;
    let mut hi: u128 = 0x100_0000_0000;
    assert((n as int) < hi * hi) by (nonlinear_arith)
        requires
            n <= 0x8000_0000_0000_0000u128 * 0x10000,
            hi == 0x100_0000_0000,
    ;
    while lo + 1 < hi
        invariant
            lo < hi <= 0x100_0000_0000,
            lo * lo <= n as int,
            (n as int) < hi * hi,
        decreases hi - lo,
    {
        let mid: u128 = lo + (hi - lo) / 2;
        assert(mid * mid <= 0x1_0000_0000_0000_0000_0000u128) by (nonlinear_arith)
            requires
                mid <= 0x100_0000_0000u128,
        ;
        if mid * mid <= n {
            lo = mid;
        } else {
            hi = mid;
        }
    }
    proof {
        assert(hi == lo + 1);
        lemma_isqrt_unique(n as int, lo as int);
    }
    lo as i64
}

} // verus!
