//! Numerical integration strategies.
//!
//! Both strategies partition the support into `n` equal fixed-point panels.
//! `RiemannSum` samples the left edge of each panel; `NewtonCotesQuadrature`
//! applies the composite Simpson rule (the order-two Newton-Cotes formula)
//! on each panel. The contracts pin down the exact checked fixed-point
//! value each strategy computes.

use vstd::prelude::*;
use crate::fixed::{
    chk, div_count, div_trunc, fits_i64, fx_mul, mul_val, opt_eq,
};
use crate::scalar_fn::{eval_scalar_spec, ScalarFn};

verus! {

/// A strategy that approximates a definite integral over a closed interval.
pub trait Integral {
    /// The strategy's configuration is usable.
    spec fn wf(&self) -> bool;

    /// The value `integrate` returns; `None` is an out-of-range result.
    spec fn integrate_spec(&self, f: ScalarFn, a: int, b: int) -> Option<int>;

    /// Approximate the integral of `f` over `support = (a, b)` with `a < b`.
    fn integrate(&self, f: &ScalarFn, support: (i64, i64)) -> (r: Option<i64>)
        requires
            self.wf(),
            support.0 < support.1,
        ensures
            opt_eq(r, self.integrate_spec(*f, support.0 as int, support.1 as int)),
    ;
}

/// The grid point `a + i * h`, checked into the `i64` range.
pub fn grid_point(a: i64, h: i64, i: usize) -> (r: Option<i64>)
    requires
        h >= 0,
    ensures
        opt_eq(r, chk(a + i * h)),
{
    proof {
        assert(0 <= (i as int) * (h as int) <= (usize::MAX as int) * (i64::MAX as int))
            by (nonlinear_arith)
            requires
                0 <= i <= usize::MAX,
                0 <= h <= i64::MAX,
        ;
    }
    let p: i128 = (i as i128) * (h as i128);
    let x = (a as i128) + p;
    if x > i64::MAX as i128 || x < i64::MIN as i128 {
        None
    } else {
        Some(x as i64)
    }
}

/// Checked sum of `f(a + i * h)` over the first `k` grid points.
pub open spec fn riemann_prefix(f: ScalarFn, a: int, h: int, k: nat) -> Option<int>
    decreases k,
{
    if k == 0 {
        Some(0)
    } else {
        match riemann_prefix(f, a, h, (k - 1) as nat) {
            None => None,
            Some(s) => {
                let x = a + (k - 1) * h;
                if !fits_i64(x) {
                    None
                } else {
                    match eval_scalar_spec(f, x) {
                        None => None,
                        Some(v) => chk(s + v),
                    }
                }
            },
        }
    }
}

pub proof fn lemma_riemann_prefix_none(f: ScalarFn, a: int, h: int, k1: nat, k2: nat)
    requires
        k1 <= k2,
        riemann_prefix(f, a, h, k1) is None,
    ensures
        riemann_prefix(f, a, h, k2) is None,
    decreases k2,
{
    if k1 < k2 {
        lemma_riemann_prefix_none(f, a, h, k1, (k2 - 1) as nat);
    }
}

/// The left Riemann sum with `n` panels of width `(b - a) / n`.
pub open spec fn riemann_spec(f: ScalarFn, a: int, b: int, n: nat) -> Option<int>
    recommends
        a < b,
        n >= 1,
{
    let h = div_trunc(b - a, n as int);
    if !fits_i64(h) {
        None
    } else {
        match riemann_prefix(f, a, h, n) {
            None => None,
            Some(s) => chk(mul_val(s, h)),
        }
    }
}

/// Left-edge Riemann quadrature with `n` equal panels.
pub struct RiemannSum {
    pub n: usize,
}

impl Integral for RiemannSum {
    open spec fn wf(&self) -> bool {
        self.n >= 1
    }

    open spec fn integrate_spec(&self, f: ScalarFn, a: int, b: int) -> Option<int> {
        riemann_spec(f, a, b, self.n as nat)
    }

    #[verifier::loop_isolation(false)]
    fn integrate(&self, f: &ScalarFn, support: (i64, i64)) -> (r: Option<i64>) {
        let a = support.0;
        let b = support.1;
        let d: i128 = (b as i128) - (a as i128);
        let h_opt = d.checked_div(self.n as i128);
        proof {
            crate::fixed::lemma_div_trunc_bound(d as int, self.n as int);
        }
        let h128 = h_opt.unwrap();
        if h128 > i64::MAX as i128 {
            return None;
        }
        let h = h128 as i64;
        let mut sum: i64 = 0;
        let mut i: usize = 0;
        while i < self.n
            invariant
                i <= self.n,
                h as int == div_trunc(b as int - a as int, self.n as int),
                h >= 0,
                riemann_prefix(*f, a as int, h as int, i as nat) == Some(sum as int),
            decreases self.n - i,
        {
            let x_opt = grid_point(a, h, i);
            let x = match x_opt {
                Some(x) => x,
                None => {
                    proof {
                        lemma_riemann_prefix_none(
                            *f, a as int, h as int, (i + 1) as nat, self.n as nat);
                    }
                    return None;
                },
            };
            let v = match f.eval(x) {
                Some(v) => v,
                None => {
                    proof {
                        lemma_riemann_prefix_none(
                            *f, a as int, h as int, (i + 1) as nat, self.n as nat);
                    }
                    return None;
                },
            };
            let s2 = match sum.checked_add(v) {
                Some(s2) => s2,
                None => {
                    proof {
                        lemma_riemann_prefix_none(
                            *f, a as int, h as int, (i + 1) as nat, self.n as nat);
                    }
                    return None;
                },
            };
            sum = s2;
            i = i + 1;
        }
        fx_mul(sum, h)
    }
}

/// One Simpson panel: `(f(x0) + 4 f(xm) + f(x1)) * h / 6` on the `i`-th panel.
pub open spec fn simpson_panel(f: ScalarFn, a: int, h: int, i: int) -> Option<int> {
    let x0 = a + i * h;
    let xm = x0 + div_trunc(h, 2);
    let x1 = x0 + h;
    if !fits_i64(x0) || !fits_i64(xm) || !fits_i64(x1) {
        None
    } else {
        match (eval_scalar_spec(f, x0), eval_scalar_spec(f, xm), eval_scalar_spec(f, x1)) {
            (Some(f0), Some(fm), Some(f1)) => {
                if !fits_i64(4 * fm) || !fits_i64(f0 + 4 * fm) || !fits_i64(f0 + 4 * fm + f1) {
                    None
                } else {
                    let w = mul_val(f0 + 4 * fm + f1, h);
                    if !fits_i64(w) {
                        None
                    } else {
                        Some(div_trunc(w, 6))
                    }
                }
            },
            _ => None,
        }
    }
}

/// Checked sum of the first `k` Simpson panels.
pub open spec fn simpson_prefix(f: ScalarFn, a: int, h: int, k: nat) -> Option<int>
    decreases k,
{
    if k == 0 {
        Some(0)
    } else {
        match (simpson_prefix(f, a, h, (k - 1) as nat), simpson_panel(f, a, h, k - 1)) {
            (Some(s), Some(p)) => chk(s + p),
            _ => None,
        }
    }
}

pub proof fn lemma_simpson_prefix_none(f: ScalarFn, a: int, h: int, k1: nat, k2: nat)
    requires
        k1 <= k2,
        simpson_prefix(f, a, h, k1) is None,
    ensures
        simpson_prefix(f, a, h, k2) is None,
    decreases k2,
{
    if k1 < k2 {
        lemma_simpson_prefix_none(f, a, h, k1, (k2 - 1) as nat);
    }
}

/// Composite Simpson quadrature over `n` subdivisions.
pub open spec fn newton_cotes_spec(f: ScalarFn, a: int, b: int, n: nat) -> Option<int>
    recommends
        a < b,
        n >= 1,
{
    let h = div_trunc(b - a, n as int);
    if !fits_i64(h) {
        None
    } else {
        simpson_prefix(f, a, h, n)
    }
}

/// Composite Simpson-rule quadrature with `n` equal subdivisions.
pub struct NewtonCotesQuadrature {
    pub n: usize,
}

impl Integral for NewtonCotesQuadrature {
    open spec fn wf(&self) -> bool {
        self.n >= 1
    }

    open spec fn integrate_spec(&self, f: ScalarFn, a: int, b: int) -> Option<int> {
        newton_cotes_spec(f, a, b, self.n as nat)
    }

    #[verifier::loop_isolation(false)]
    fn integrate(&self, f: &ScalarFn, support: (i64, i64)) -> (r: Option<i64>) {
        let a = support.0;
        let b = support.1;
        let d: i128 = (b as i128) - (a as i128);
        let h_opt = d.checked_div(self.n as i128);
        proof {
            crate::fixed::lemma_div_trunc_bound(d as int, self.n as int);
        }
        let h128 = h_opt.unwrap();
        if h128 > i64::MAX as i128 {
            return None;
        }
        let h = h128 as i64;
        let h2 = div_count(h, 2);
        let mut sum: i64 = 0;
        let mut i: usize = 0;
        while i < self.n
            invariant
                i <= self.n,
                h as int == div_trunc(b as int - a as int, self.n as int),
                h >= 0,
                h2 as int == div_trunc(h as int, 2),
                simpson_prefix(*f, a as int, h as int, i as nat) == Some(sum as int),
            decreases self.n - i,
        {
            let panel = match simpson_panel_exec(f, a, h, h2, i) {
                Some(p) => p,
                None => {
                    proof {
                        lemma_simpson_prefix_none(
                            *f, a as int, h as int, (i + 1) as nat, self.n as nat);
                    }
                    return None;
                },
            };
            let s2 = match sum.checked_add(panel) {
                Some(s2) => s2,
                None => {
                    proof {
                        lemma_simpson_prefix_none(
                            *f, a as int, h as int, (i + 1) as nat, self.n as nat);
                    }
                    return None;
                },
            };
            sum = s2;
            i = i + 1;
        }
        Some(sum)
    }
}

/// One executable Simpson panel.
fn simpson_panel_exec(f: &ScalarFn, a: i64, h: i64, h2: i64, i: usize) -> (r: Option<i64>)
    requires
        h >= 0,
        h2 as int == div_trunc(h as int, 2),
    ensures
        opt_eq(r, simpson_panel(*f, a as int, h as int, i as int)),
{
    proof {
        crate::fixed::lemma_div_trunc_bound(h as int, 2);
    }
    let x0 = match grid_point(a, h, i) {
        Some(x) => x,
        None => {
            return None;
        },
    };
    let xm = match x0.checked_add(h2) {
        Some(x) => x,
        None => {
            return None;
        },
    };
    let x1 = match x0.checked_add(h) {
        Some(x) => x,
        None => {
            return None;
        },
    };
    let f0 = match f.eval(x0) {
        Some(v) => v,
        None => {
            return None;
        },
    };
    let fm = match f.eval(xm) {
        Some(v) => v,
        None => {
            return None;
        },
    };
    let f1 = match f.eval(x1) {
        Some(v) => v,
        None => {
            return None;
        },
    };
    let s1 = match fm.checked_mul(4) {
        Some(v) => v,
        None => {
            return None;
        },
    };
    let s2 = match f0.checked_add(s1) {
        Some(v) => v,
        None => {
            return None;
        },
    };
    let s3 = match s2.checked_add(f1) {
        Some(v) => v,
        None => {
            return None;
        },
    };
    let w = match fx_mul(s3, h) {
        Some(v) => v,
        None => {
            return None;
        },
    };
    Some(div_count(w, 6))
}

} // verus!
