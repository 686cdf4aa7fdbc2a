//! Distribution statistics and quadrature behaviour.
//!
//! Values are fixed-point raw units: 1_000_000 is 1.0.

use curvefit::error::FitError;
use curvefit::fixed::SCALE;
use curvefit::integral::{Integral, NewtonCotesQuadrature, RiemannSum};
use curvefit::measurements_uncertainties::{
    uniform_distribution_pdf, uniform_distribution_stats, CompactlySupportedDistribution,
};
use curvefit::scalar_fn::ScalarFn;

const ONE: i64 = SCALE;

#[test]
fn test_uniform_distribution() {
    let uniform = uniform_distribution_pdf((0, ONE)).unwrap();
    let transformed_uniform = uniform.transform_x(ScalarFn::X);

    let stats = transformed_uniform
        .calculate_distribution(&RiemannSum { n: 1000 })
        .unwrap();

    let defined_stats = uniform_distribution_stats((0, ONE)).unwrap();

    // epsilon 1e-2, in raw units
    let eps = SCALE / 100;
    assert!((stats.expected_value - defined_stats.expected_value).abs() <= eps);
    assert!((stats.variance - defined_stats.variance).abs() <= eps);
}

#[test]
fn uniform_distribution_newton_cotes_is_tight() {
    let uniform = uniform_distribution_pdf((0, ONE)).unwrap();

    let stats = uniform
        .calculate_distribution(&NewtonCotesQuadrature { n: 1000 })
        .unwrap();

    let defined_stats = uniform_distribution_stats((0, ONE)).unwrap();

    // a tighter bound than the Riemann test: 5e-3 in raw units
    let eps = SCALE / 200;
    assert!((stats.expected_value - defined_stats.expected_value).abs() <= eps);
    assert!((stats.variance - defined_stats.variance).abs() <= eps);
}

#[test]
fn uniform_distribution_closed_form_values() {
    // uniform on [1, 3]: mean 2, variance 4/12
    let stats = uniform_distribution_stats((ONE, 3 * ONE)).unwrap();
    assert_eq!(stats.expected_value, 2 * ONE);
    assert_eq!(stats.variance, (2 * ONE) * (2 * ONE) / SCALE / 12);
}

#[test]
fn invalid_support_is_rejected() {
    // a >= b must fail with InvalidSupport, never silently proceed
    let r = uniform_distribution_pdf((ONE, ONE));
    assert!(matches!(r, Err(FitError::InvalidSupport)));

    let r = uniform_distribution_pdf((ONE, 0));
    assert!(matches!(r, Err(FitError::InvalidSupport)));

    let r = CompactlySupportedDistribution::new((ONE, 0), ScalarFn::X, ScalarFn::Const(ONE));
    assert!(matches!(r, Err(FitError::InvalidSupport)));

    let r = uniform_distribution_stats((3 * ONE, 2 * ONE));
    assert!(matches!(r, Err(FitError::InvalidSupport)));

    assert!(uniform_distribution_pdf((0, ONE)).is_ok());
}

#[test]
fn riemann_error_shrinks_with_panel_count() {
    // integral of x over [0, 1] is 0.5; the left Riemann sum's error halves
    // as the panel count grows
    let exact = SCALE / 2;
    let mut last_err = i64::MAX;
    for n in [4usize, 16, 64, 256] {
        let got = RiemannSum { n }.integrate(&ScalarFn::X, (0, ONE)).unwrap();
        let err = (got - exact).abs();
        assert!(err < last_err);
        last_err = err;
    }
}

#[test]
fn newton_cotes_error_shrinks_with_subdivisions() {
    // integral of the indicator of [0, 0.7) over [0, 1] is 0.7; the
    // subdivision count drives the error down
    let f = ScalarFn::Indicator { lo: 0, hi: 700_000 };
    let exact = 700_000i64;
    let mut last_err = i64::MAX;
    for n in [10usize, 100, 1000] {
        let got = NewtonCotesQuadrature { n }.integrate(&f, (0, ONE)).unwrap();
        let err = (got - exact).abs();
        assert!(err < last_err);
        last_err = err;
    }
}

#[test]
fn scalar_fn_evaluation() {
    // identity, constants, sums, products, composition, indicator
    assert_eq!(ScalarFn::X.eval(42), Some(42));
    assert_eq!(ScalarFn::Const(7 * ONE).eval(42), Some(7 * ONE));
    let sum = ScalarFn::Sum(Box::new(ScalarFn::X), Box::new(ScalarFn::Const(ONE)));
    assert_eq!(sum.eval(2 * ONE), Some(3 * ONE));
    let square = ScalarFn::Product(Box::new(ScalarFn::X), Box::new(ScalarFn::X));
    assert_eq!(square.eval(3 * ONE), Some(9 * ONE));
    let comp = ScalarFn::Compose(Box::new(square), Box::new(ScalarFn::Const(2 * ONE)));
    assert_eq!(comp.eval(5), Some(4 * ONE));
    let ind = ScalarFn::Indicator { lo: 0, hi: ONE };
    assert_eq!(ind.eval(0), Some(ONE));
    assert_eq!(ind.eval(ONE - 1), Some(ONE));
    assert_eq!(ind.eval(ONE), Some(0));
    assert_eq!(ind.eval(-1), Some(0));
}

#[test]
fn transform_x_composes() {
    // E[g(X)] for g = x^2 on the uniform over [0, 1] is 1/3
    let uniform = uniform_distribution_pdf((0, ONE)).unwrap();
    let square = ScalarFn::Product(Box::new(ScalarFn::X), Box::new(ScalarFn::X));
    let squared = uniform.transform_x(square);
    let e2 = squared
        .expected_value(&RiemannSum { n: 1000 })
        .unwrap();
    assert!((e2 - SCALE / 3).abs() <= SCALE / 100);
}

#[test]
fn overflowing_moment_propagates_as_none() {
    // a density far beyond the representable range overflows the
    // quadrature, the analogue of a non-finite float
    let huge = ScalarFn::Const(i64::MAX);
    let dist =
        CompactlySupportedDistribution::new((0, ONE), huge.clone(), huge).unwrap();
    assert!(dist.calculate_distribution(&RiemannSum { n: 10 }).is_none());
}
