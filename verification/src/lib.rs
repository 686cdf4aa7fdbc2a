//! Curve fitting with uncertainty estimation over fixed-point arithmetic.
//!
//! The crate fits a parametric model to noisy measurements by gradient
//! descent on the summed squared residuals, and estimates the uncertainty
//! of the fitted parameters by Monte Carlo resampling: each observation is
//! perturbed by noise scaled to its reported standard deviation, refitted,
//! and the refitted parameters are aggregated into per-parameter means and
//! standard deviations. A reusable piece computes the mean and variance of
//! a probability distribution over a bounded support through a pluggable
//! numerical-integration strategy.
//!
//! All values are fixed-point: an `i64` raw value `v` stands for the real
//! number `v / fixed::SCALE`, and every arithmetic step is checked, with
//! an out-of-range result reported in place of a non-finite float.

pub mod error;
pub mod fixed;
pub mod integral;
pub mod measurements_uncertainties;
pub mod monte_carlo;
pub mod scalar_fn;
pub mod uncertainties;
