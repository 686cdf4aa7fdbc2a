//! The gradient-descent fitting engine on known datasets.
//!
//! Values are fixed-point raw units: 1_000_000 is 1.0.

use curvefit::error::FitError;
use curvefit::fixed::{fx_div_pos, fx_mul, sqrt_fx, SCALE};
use curvefit::uncertainties::{
    exp_fx, fit, loss, sample_error, ExpModel, Function, LinearModel, SgdConfig,
};

const ONE: i64 = SCALE;

fn linear_dataset(k: i64) -> Vec<(i64, i64)> {
    vec![
        (0, 0),
        (ONE, k),
        (3 * ONE, fx_mul(3 * ONE, k).unwrap()),
        (4 * ONE, fx_mul(4 * ONE, k).unwrap()),
    ]
}

#[test]
fn test_linear() {
    let dataset = linear_dataset(-2 * ONE);

    let params_fitted = fit(
        &dataset,
        &LinearModel,
        100,
        SgdConfig::default(),
        vec![0],
    )
    .unwrap()[0];

    assert!((params_fitted - (-2 * ONE)).abs() <= 1000);
}

#[test]
fn linear_fit_recovers_positive_slope() {
    // the sign must be recovered, not just the magnitude
    let dataset = linear_dataset(2 * ONE);

    let params_fitted = fit(
        &dataset,
        &LinearModel,
        100,
        SgdConfig::default(),
        vec![0],
    )
    .unwrap()[0];

    assert!((params_fitted - 2 * ONE).abs() <= 1000);
}

#[test]
fn test_exp() {
    // x in {0, 0.1, ..., 0.9}, y = exp(0.3 x)
    let dataset: Vec<(i64, i64)> = (0..10)
        .map(|i| {
            let x = i as f64 / 10.0;
            let y = (0.3 * x).exp();
            ((x * SCALE as f64).round() as i64, (y * SCALE as f64).round() as i64)
        })
        .collect();

    let params_fitted = fit(
        &dataset,
        &ExpModel,
        1000,
        SgdConfig::default(),
        vec![0],
    )
    .unwrap()[0];

    assert!((params_fitted - 300_000).abs() <= 2000);
}

#[test]
fn fit_reduces_the_loss() {
    let dataset = linear_dataset(-2 * ONE);
    let initial = vec![0i64];

    let before = loss(&dataset, &LinearModel, &initial).unwrap();
    let fitted = fit(&dataset, &LinearModel, 100, SgdConfig::default(), initial).unwrap();
    let after = loss(&dataset, &LinearModel, &fitted).unwrap();

    assert!(after < before);
    assert!(after <= 10);
}

#[test]
fn diverging_update_reports_optimizer_failure() {
    // an immense learning rate drives the update out of the representable
    // range; the failure must be surfaced, not silently ignored
    let dataset = vec![(ONE, ONE)];
    let config = SgdConfig { learning_rate: i64::MAX };

    let r = fit(&dataset, &LinearModel, 5, config, vec![4_000_000_000_000_000]);
    assert!(matches!(r, Err(FitError::OptimizerFailure)));
}

#[test]
fn sample_error_is_the_squared_residual() {
    // f(2) = 2 for t = 1; residual against y = 1 is 1; squared is 1
    let e = sample_error((2 * ONE, ONE), &LinearModel, &vec![ONE]);
    assert_eq!(e, Some(ONE));
}

#[test]
fn models_report_values_and_gradients() {
    let lin = LinearModel;
    assert_eq!(lin.dim_exec(), 1);
    assert_eq!(lin.eval(3 * ONE, &vec![2 * ONE]), Some(6 * ONE));
    assert_eq!(lin.grad(3 * ONE, &vec![2 * ONE], 0), Some(3 * ONE));

    let exp = ExpModel;
    assert_eq!(exp.dim_exec(), 1);
    // f(x, 0) = exp(0) = 1 whatever x; its derivative there is x
    assert_eq!(exp.eval(5 * ONE, &vec![0]), Some(ONE));
    assert_eq!(exp.grad(5 * ONE, &vec![0], 0), Some(5 * ONE));
}

#[test]
fn exp_series_matches_the_constant() {
    // the truncated series at 1.0, term by term: 2_718_277 raw
    let e = exp_fx(ONE).unwrap();
    assert_eq!(e, 2_718_277);
    // within 5e-6 of e = 2.718281828...
    assert!((e - 2_718_281).abs() <= 5);
}

#[test]
fn fixed_point_operations_are_exact() {
    assert_eq!(fx_mul(1_500_000, 2_000_000), Some(3_000_000));
    // truncation toward zero on a negative product
    assert_eq!(fx_mul(-1_500_000, 333), Some(-499));
    assert_eq!(fx_div_pos(ONE, 3 * ONE), Some(333_333));
    assert_eq!(sqrt_fx(4 * ONE), 2 * ONE);
    assert_eq!(sqrt_fx(2 * ONE), 1_414_213);
    assert_eq!(fx_mul(i64::MAX, i64::MAX), None);
}
