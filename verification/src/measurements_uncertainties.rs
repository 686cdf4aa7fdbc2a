//! Probability distributions over a bounded support, and their moments.
//!
//! A `CompactlySupportedDistribution` pairs a density with its support and
//! with a transform of the underlying random variable. Expected values are
//! computed by a pluggable `Integral` strategy; the variance is derived as
//! `E[X^2] - E[X]^2`, which is exact over the checked fixed-point steps the
//! contracts record but, like its real-valued counterpart, can cancel badly
//! when the variance is small relative to the squared mean.

use vstd::prelude::*;
use crate::error::FitError;
use crate::fixed::{
    div_count, div_trunc, div_val, fits_i64, fx_div_pos, fx_mul, fx_sub, mul_val, opt_eq,
    div_trunc128, lemma_div_trunc_bound, lemma_div_trunc_small, SCALE,
};
use crate::integral::Integral;
use crate::scalar_fn::{compose_of, product_of, square_fn, ScalarFn};

verus! {

/// Mean and variance of a distribution, as fixed-point raw values.
#[derive(Debug, Clone, Copy)]
pub struct DistributionStats {
    pub expected_value: i64,
    pub variance: i64,
}

/// A probability density over a bounded support, together with a transform
/// of the random variable; the evaluated quantity is `f(x)` under density
/// `pdf(x)`. The density is expected, by convention, to integrate to 1 over
/// the support; that is the caller's responsibility.
pub struct CompactlySupportedDistribution {
    pub support: (i64, i64),
    pub f: ScalarFn,
    pub pdf: ScalarFn,
}

impl CompactlySupportedDistribution {
    /// The support interval is neither empty nor inverted.
    pub open spec fn wf(&self) -> bool {
        self.support.0 < self.support.1
    }

    /// The distribution with the same support and density whose transform
    /// is `g` applied after the current one.
    pub open spec fn transformed(self, g: ScalarFn) -> Self {
        CompactlySupportedDistribution {
            support: self.support,
            f: compose_of(g, self.f),
            pdf: self.pdf,
        }
    }

    /// `E[f(X)]`, as the chosen strategy computes it.
    pub open spec fn expected_value_spec<I: Integral>(self, integral: I) -> Option<int> {
        integral.integrate_spec(
            product_of(self.f, self.pdf),
            self.support.0 as int,
            self.support.1 as int,
        )
    }

    /// Mean and variance, as the chosen strategy computes them:
    /// the mean is `E[f(X)]`, the variance `E[f(X)^2] - E[f(X)]^2`.
    pub open spec fn stats_spec<I: Integral>(self, integral: I) -> Option<(int, int)> {
        match self.expected_value_spec(integral) {
            None => None,
            Some(m) => match self.transformed(square_fn()).expected_value_spec(integral) {
                None => None,
                Some(e2) => {
                    if !fits_i64(mul_val(m, m)) {
                        None
                    } else if !fits_i64(e2 - mul_val(m, m)) {
                        None
                    } else {
                        Some((m, e2 - mul_val(m, m)))
                    }
                },
            },
        }
    }

    /// Build a distribution over `support`; an empty or inverted support
    /// (`a >= b`) is rejected with `InvalidSupport`, never accepted.
    pub fn new(support: (i64, i64), f: ScalarFn, pdf: ScalarFn) -> (r: Result<Self, FitError>)
        ensures
            support.0 >= support.1 <==> r is Err,
            r is Err ==> r->Err_0 == FitError::InvalidSupport,
            r matches Ok(d) ==> d == (CompactlySupportedDistribution { support, f, pdf })
                && d.wf(),
    {
        if support.0 >= support.1 {
            Err(FitError::InvalidSupport)
        } else {
            Ok(CompactlySupportedDistribution { support, f, pdf })
        }
    }

    /// A distribution over the same support and density whose evaluated
    /// quantity is `g` applied to the present transform's value.
    pub fn transform_x(&self, g: ScalarFn) -> (r: Self)
        ensures
            r == self.transformed(g),
    {
        CompactlySupportedDistribution {
            support: self.support,
            f: ScalarFn::Compose(Box::new(g), Box::new(self.f.clone())),
            pdf: self.pdf.clone(),
        }
    }

    /// `E[f(X)]`: the integral of `f(x) * pdf(x)` over the support,
    /// computed by the given strategy.
    pub fn expected_value<I: Integral>(&self, integral: &I) -> (r: Option<i64>)
        requires
            self.wf(),
            integral.wf(),
        ensures
            opt_eq(r, self.expected_value_spec(*integral)),
    {
        let integrand = ScalarFn::Product(
            Box::new(self.f.clone()),
            Box::new(self.pdf.clone()),
        );
        integral.integrate(&integrand, self.support)
    }

    /// Mean and variance of the evaluated quantity. `None` reports an
    /// out-of-range intermediate value, the analogue of a non-finite result.
    pub fn calculate_distribution<I: Integral>(&self, integral: &I) -> (r: Option<
        DistributionStats,
    >)
        requires
            self.wf(),
            integral.wf(),
        ensures
            match r {
                Some(s) => self.stats_spec(*integral) == Some(
                    (s.expected_value as int, s.variance as int),
                ),
                None => self.stats_spec(*integral) is None,
            },
    {
        let mean = match self.expected_value(integral) {
            Some(m) => m,
            None => {
                return None;
            },
        };
        let squared = self.transform_x(
            ScalarFn::Product(Box::new(ScalarFn::X), Box::new(ScalarFn::X)),
        );
        let e2 = match squared.expected_value(integral) {
            Some(v) => v,
            None => {
                return None;
            },
        };
        let m2 = match fx_mul(mean, mean) {
            Some(v) => v,
            None => {
                return None;
            },
        };
        let variance = match fx_sub(e2, m2) {
            Some(v) => v,
            None => {
                return None;
            },
        };
        Some(DistributionStats { expected_value: mean, variance })
    }
}

/// The uniform density over `support`: `1 / (b - a)` inside the interval,
/// 0 outside, as a `ScalarFn` value.
pub open spec fn uniform_pdf_fn(support: (i64, i64)) -> ScalarFn {
    ScalarFn::Product(
        Box::new(ScalarFn::Indicator { lo: support.0, hi: support.1 }),
        Box::new(ScalarFn::Const(div_val(SCALE as int, support.1 - support.0) as i64)),
    )
}

/// The uniform distribution over `support` with the identity transform;
/// an empty or inverted support is rejected with `InvalidSupport`.
pub fn uniform_distribution_pdf(support: (i64, i64)) -> (r: Result<
    CompactlySupportedDistribution,
    FitError,
>)
    ensures
        support.0 >= support.1 <==> r is Err,
        r is Err ==> r->Err_0 == FitError::InvalidSupport,
        r matches Ok(d) ==> d == (CompactlySupportedDistribution {
            support,
            f: ScalarFn::X,
            pdf: uniform_pdf_fn(support),
        }) && d.wf(),
{
    if support.0 >= support.1 {
        return Err(FitError::InvalidSupport);
    }
    let width: i128 = (support.1 as i128) - (support.0 as i128);
    let c: i64;
    if width <= i64::MAX as i128 {
        let w = width as i64;
        c = match fx_div_pos(SCALE, w) {
            Some(v) => v,
            None => {
                proof {
                    lemma_div_trunc_bound((SCALE as int) * (SCALE as int), w as int);
                    assert(false);
                }
                0
            },
        };
    } else {
        proof {
            lemma_div_trunc_small(
                (SCALE as int) * (SCALE as int),
                support.1 - support.0,
            );
        }
        c = 0;
    }
    Ok(CompactlySupportedDistribution {
        support,
        f: ScalarFn::X,
        pdf: ScalarFn::Product(
            Box::new(ScalarFn::Indicator { lo: support.0, hi: support.1 }),
            Box::new(ScalarFn::Const(c)),
        ),
    })
}

/// The closed-form mean `(a + b) / 2` and variance `(b - a)^2 / 12` of the
/// uniform distribution over `support`; the oracle the quadratures are
/// checked against.
pub fn uniform_distribution_stats(support: (i64, i64)) -> (r: Result<
    DistributionStats,
    FitError,
>)
    requires
        support.0 < support.1 ==> fits_i64(
            mul_val(support.1 - support.0, support.1 - support.0),
        ),
    ensures
        support.0 >= support.1 <==> r is Err,
        r is Err ==> r->Err_0 == FitError::InvalidSupport,
        r matches Ok(s) ==> s.expected_value as int == div_trunc(support.0 + support.1, 2)
            && s.variance as int == div_trunc(
                mul_val(support.1 - support.0, support.1 - support.0),
                12,
            ),
{
    if support.0 >= support.1 {
        return Err(FitError::InvalidSupport);
    }
    let m128 = div_trunc128((support.0 as i128) + (support.1 as i128), 2);
    proof {
        crate::fixed::lemma_mean_fits(support.0 + support.1, 2);
    }
    let mean = m128 as i64;
    let width: i128 = (support.1 as i128) - (support.0 as i128);
    proof {
        if support.1 - support.0 > i64::MAX {
            crate::fixed::lemma_mul_val_large(support.1 - support.0);
        }
    }
    let w = width as i64;
    let sq = match fx_mul(w, w) {
        Some(v) => v,
        None => {
            proof {
                assert(false);
            }
            0
        },
    };
    let variance = div_count(sq, 12);
    Ok(DistributionStats { expected_value: mean, variance })
}

} // verus!
