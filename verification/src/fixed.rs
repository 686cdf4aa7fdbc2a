//! Fixed-point arithmetic over `i64` raw values scaled by `SCALE`.
//!
//! A raw value `v` stands for the real number `v / SCALE`. Every operation
//! is checked: a result that leaves the `i64` range is reported as `None`,
//! the fixed-point counterpart of a non-finite floating-point value.
//! Division truncates toward zero, as Rust's integer division does.

use vstd::prelude::*;
use vstd::arithmetic::div_mod::{
    lemma_div_pos_is_pos, lemma_div_nonincreasing, lemma_div_multiples_vanish, lemma_basic_div,
};

verus! {

/// Number of raw units in 1.0.
pub const SCALE: i64 = 1_000_000;

pub open spec fn fits_i64(v: int) -> bool {
    i64::MIN <= v <= i64::MAX
}

/// The checked embedding of a mathematical integer into the `i64` range.
pub open spec fn chk(v: int) -> Option<int> {
    if fits_i64(v) {
        Some(v)
    } else {
        None
    }
}

/// An executable checked result agrees with its mathematical counterpart.
pub open spec fn opt_eq(r: Option<i64>, s: Option<int>) -> bool {
    match (r, s) {
        (Some(a), Some(b)) => a == b,
        (None, None) => true,
        _ => false,
    }
}

/// Integer division truncating toward zero (for a positive divisor),
/// the rounding used by every fixed-point operation here.
pub open spec fn div_trunc(a: int, b: int) -> int
    recommends
        b > 0,
{
    if a >= 0 {
        a / b
    } else {
        -((-a) / b)
    }
}

/// Fixed-point product: (a * b) / SCALE, truncated toward zero.
pub open spec fn mul_val(a: int, b: int) -> int {
    div_trunc(a * b, SCALE as int)
}

/// Fixed-point quotient: (a * SCALE) / b, truncated toward zero.
pub open spec fn div_val(a: int, b: int) -> int
    recommends
        b > 0,
{
    div_trunc(a * (SCALE as int), b)
}

pub proof fn lemma_div_trunc_bound(a: int, b: int)
    requires
        b >= 1,
    ensures
        a >= 0 ==> 0 <= div_trunc(a, b) <= a,
        a < 0 ==> a <= div_trunc(a, b) <= 0,
{
    if a >= 0 {
        lemma_div_pos_is_pos(a, b);
        lemma_div_nonincreasing(a, b);
    } else {
        lemma_div_pos_is_pos(-a, b);
        lemma_div_nonincreasing(-a, b);
    }
}

pub proof fn lemma_div_trunc_multiple(v: int, b: int)
    requires
        b >= 1,
    ensures
        div_trunc(b * v, b) == v,
{
    if v >= 0 {
        lemma_div_multiples_vanish(v, b);
    } else {
        lemma_div_multiples_vanish(-v, b);
        assert(-(b * v) == b * (-v)) by (nonlinear_arith);
    }
}

pub proof fn lemma_div_trunc_small(a: int, b: int)
    requires
        b >= 1,
        0 <= a < b,
    ensures
        div_trunc(a, b) == 0,
{
    lemma_basic_div(a, b);
}

/// The truncated average of `t` values from the `i64` range is itself in
/// the `i64` range.
pub proof fn lemma_mean_fits(s: int, t: int)
    requires
        t >= 1,
        -t * 0x8000_0000_0000_0000 <= s <= t * 0x7fff_ffff_ffff_ffff,
    ensures
        fits_i64(div_trunc(s, t)),
{
    lemma_div_trunc_bound(s, t);
    if s >= 0 {
        vstd::arithmetic::div_mod::lemma_div_is_ordered(s, t * 0x7fff_ffff_ffff_ffffint, t);
        vstd::arithmetic::div_mod::lemma_div_multiples_vanish(0x7fff_ffff_ffff_ffffint, t);
    } else {
        vstd::arithmetic::div_mod::lemma_div_is_ordered(-s, t * 0x8000_0000_0000_0000int, t);
        vstd::arithmetic::div_mod::lemma_div_multiples_vanish(0x8000_0000_0000_0000int, t);
    }
}

/// The fixed-point square of a value beyond the `i64` range is itself
/// beyond the `i64` range.
pub proof fn lemma_mul_val_large(d: int)
    requires
        d > i64::MAX,
    ensures
        mul_val(d, d) > i64::MAX,
{
    let s = SCALE as int;
    let big = 0x8000_0000_0000_0000;
    assert(d * d >= s * big) by (nonlinear_arith)
        requires
            d >= big,
            s == 1_000_000,
            big == 0x8000_0000_0000_0000,
    ;
    vstd::arithmetic::div_mod::lemma_div_is_ordered(s * big, d * d, s);
    vstd::arithmetic::div_mod::lemma_div_multiples_vanish(big, s);
    assert(d * d >= 0) by (nonlinear_arith)
        requires
            d > 0,
    ;
}

/// Checked fixed-point addition (addition needs no rescaling).
pub fn fx_add(a: i64, b: i64) -> (r: Option<i64>)
    ensures
        opt_eq(r, chk(a + b)),
{
    a.checked_add(b)
}

/// Checked fixed-point subtraction.
pub fn fx_sub(a: i64, b: i64) -> (r: Option<i64>)
    ensures
        opt_eq(r, chk(a - b)),
{
    a.checked_sub(b)
}

/// Checked fixed-point multiplication: `(a * b) / SCALE`, truncated.
pub fn fx_mul(a: i64, b: i64) -> (r: Option<i64>)
    ensures
        opt_eq(r, chk(mul_val(a as int, b as int))),
{
    proof {
        assert(i128::MIN <= (a as int) * (b as int) <= i128::MAX) by (nonlinear_arith)
            requires
                i64::MIN <= a <= i64::MAX,
                i64::MIN <= b <= i64::MAX,
        ;
    }
    let p: i128 = (a as i128) * (b as i128);
    let q_opt = p.checked_div(SCALE as i128);
    proof {
        let x = p as int;
        let d = SCALE as int;
        lemma_div_trunc_bound(x, d);
        if x < 0 {
            assert(x * -1 == -x);
            assert(((x * -1) / d) * -1 == -((-x) / d));
        }
        assert(q_opt matches Some(q) && q as int == div_trunc(x, d));
    }
    let q = q_opt.unwrap();
    if q > (i64::MAX as i128) || q < (i64::MIN as i128) {
        None
    } else {
        Some(q as i64)
    }
}

/// Checked fixed-point division by a positive value: `(a * SCALE) / b`, truncated.
pub fn fx_div_pos(a: i64, b: i64) -> (r: Option<i64>)
    requires
        b > 0,
    ensures
        opt_eq(r, chk(div_val(a as int, b as int))),
{
    proof {
        assert(i128::MIN <= (a as int) * (SCALE as int) <= i128::MAX) by (nonlinear_arith)
            requires
                i64::MIN <= a <= i64::MAX,
        ;
    }
    let p: i128 = (a as i128) * (SCALE as i128);
    let q_opt = p.checked_div(b as i128);
    proof {
        let x = p as int;
        let d = b as int;
        lemma_div_trunc_bound(x, d);
        if x < 0 {
            assert(x * -1 == -x);
            assert(((x * -1) / d) * -1 == -((-x) / d));
        }
        assert(q_opt matches Some(q) && q as int == div_trunc(x, d));
    }
    let q = q_opt.unwrap();
    if q > (i64::MAX as i128) || q < (i64::MIN as i128) {
        None
    } else {
        Some(q as i64)
    }
}

/// Division of a raw value by a plain count (no rescaling); never overflows.
pub fn div_count(a: i64, n: u64) -> (r: i64)
    requires
        n >= 1,
    ensures
        r as int == div_trunc(a as int, n as int),
{
    let q_opt = (a as i128).checked_div(n as i128);
    proof {
        let x = a as int;
        let d = n as int;
        lemma_div_trunc_bound(x, d);
        if x < 0 {
            assert(x * -1 == -x);
            assert(((x * -1) / d) * -1 == -((-x) / d));
        }
        assert(q_opt matches Some(q) && q as int == div_trunc(x, d));
    }
    q_opt.unwrap() as i64
}

/// Division of a wide raw value by a plain count; never overflows.
pub fn div_trunc128(a: i128, n: u64) -> (r: i128)
    requires
        n >= 1,
    ensures
        r as int == div_trunc(a as int, n as int),
{
    let q_opt = a.checked_div(n as i128);
    proof {
        let x = a as int;
        let d = n as int;
        lemma_div_trunc_bound(x, d);
        if x < 0 {
            assert(x * -1 == -x);
            assert(((x * -1) / d) * -1 == -((-x) / d));
        }
        assert(q_opt matches Some(q) && q as int == div_trunc(x, d));
    }
    q_opt.unwrap()
}

/// `r` is the integer square root of `n`, rounded down.
pub open spec fn is_sqrt(n: int, r: int) -> bool {
    r >= 0 && r * r <= n && n < (r + 1) * (r + 1)
}

/// The integer square root as a function, defined through its defining property.
pub open spec fn sqrt_val(n: int) -> int {
    choose|r: int| is_sqrt(n, r)
}

pub proof fn lemma_sqrt_unique(n: int, r: int)
    requires
        is_sqrt(n, r),
    ensures
        sqrt_val(n) == r,
{
    assert(exists|q: int| is_sqrt(n, q)) by {
        assert(is_sqrt(n, r));
    }
    let q = sqrt_val(n);
    assert(is_sqrt(n, q));
    if q < r {
        assert((q + 1) * (q + 1) <= r * r) by (nonlinear_arith)
            requires
                q >= 0,
                r >= 0,
                q < r,
        ;
        assert(false);
    }
    if r < q {
        assert((r + 1) * (r + 1) <= q * q) by (nonlinear_arith)
            requires
                q >= 0,
                r >= 0,
                r < q,
        ;
        assert(false);
    }
}

/// Integer square root by bisection.
pub fn isqrt_u128(n: u128) -> (r: u64)
    ensures
        is_sqrt(n as int, r as int),
{
    let mut lo: u128 = 0;
    let mut hi: u128 = 0x1_0000_0000_0000_0000;
    proof {
        assert((hi as int) * (hi as int) > n as int) by (nonlinear_arith)
            requires
                hi == 0x1_0000_0000_0000_0000,
                n <= u128::MAX,
        ;
    }
    while lo + 1 < hi
        invariant
            lo < hi <= 0x1_0000_0000_0000_0000,
            (lo as int) * (lo as int) <= n as int,
            (n as int) < (hi as int) * (hi as int),
        decreases hi - lo,
    {
        let mid = lo + (hi - lo) / 2;
        proof {
            assert(lo < mid < hi);
            assert((mid as int) * (mid as int) < u128::MAX) by (nonlinear_arith)
                requires
                    0 < mid < 0x1_0000_0000_0000_0000,
            ;
        }
        let sq = mid * mid;
        if sq <= n {
            lo = mid;
        } else {
            hi = mid;
        }
    }
    lo as u64
}

/// Fixed-point square root: `sqrt(v / SCALE)` as a raw value is
/// the integer square root of `v * SCALE`.
pub fn sqrt_fx(v: i64) -> (r: i64)
    requires
        v >= 0,
    ensures
        r >= 0,
        r as int == sqrt_val(v * (SCALE as int)),
{
    proof {
        assert((v as int) * (SCALE as int) <= (i64::MAX as int) * (SCALE as int)) by (nonlinear_arith)
            requires
                0 <= v <= i64::MAX,
        ;
    }
    let n: u128 = (v as u128) * (SCALE as u128);
    let s = isqrt_u128(n);
    proof {
        lemma_sqrt_unique(n as int, s as int);
        assert((s as int) * (s as int) <= n as int);
        assert(s as int <= i64::MAX) by (nonlinear_arith)
            requires
                s >= 0,
                (s as int) * (s as int) <= n as int,
                n as int <= (i64::MAX as int) * (SCALE as int),
        ;
    }
    s as i64
}

} // verus!
