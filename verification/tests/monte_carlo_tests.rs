//! Monte Carlo uncertainty estimation.
//!
//! Values are fixed-point raw units: 1_000_000 is 1.0.

use curvefit::error::FitError;
use curvefit::fixed::SCALE;
use curvefit::monte_carlo::{fit_trials, fit_with_std_dev, TrialInput};
use curvefit::uncertainties::{DataEntry, LinearModel, SgdConfig};

const ONE: i64 = SCALE;

/// y = 2 x with per-point y-uncertainty `u` (x exact).
fn linear_entries(u: i64) -> Vec<DataEntry> {
    vec![
        DataEntry::with_uncertainties(0, 0, 0, u),
        DataEntry::with_uncertainties(ONE, 0, 2 * ONE, u),
        DataEntry::with_uncertainties(3 * ONE, 0, 6 * ONE, u),
        DataEntry::with_uncertainties(4 * ONE, 0, 8 * ONE, u),
    ]
}

/// Three trials with a shared starting point and fixed, varied draws.
fn fixed_trials() -> Vec<TrialInput> {
    let draws: [[i64; 4]; 3] = [
        [500_000, -1_200_000, 2_000_000, -300_000],
        [-1_700_000, 800_000, -600_000, 1_100_000],
        [900_000, 1_500_000, -2_200_000, 400_000],
    ];
    draws
        .iter()
        .map(|row| TrialInput {
            initial: vec![0],
            noise: row.iter().map(|&n| (0, n)).collect(),
        })
        .collect()
}

#[test]
fn zero_uncertainty_means_zero_spread() {
    // no noise and a shared starting point: the spread is exactly zero
    // and the mean is the plain fitted slope
    let entries = linear_entries(0);
    let stats = fit_trials(&entries, &fixed_trials(), &LinearModel, 100, SgdConfig::default())
        .unwrap();

    assert_eq!(stats.len(), 1);
    assert_eq!(stats[0].std_dev, 0);
    assert!((stats[0].mean - 2 * ONE).abs() <= 1000);
}

#[test]
fn spread_grows_with_uncertainty() {
    // the same draws, scaled by a growing per-point uncertainty: the
    // reported standard deviation must grow with it
    let trials = fixed_trials();
    let mut last_sd = -1i64;
    for u in [0i64, 50_000, 200_000, 800_000] {
        let entries = linear_entries(u);
        let stats =
            fit_trials(&entries, &trials, &LinearModel, 100, SgdConfig::default()).unwrap();
        assert!(stats[0].std_dev >= last_sd);
        if u > 0 {
            assert!(stats[0].std_dev > last_sd);
        }
        last_sd = stats[0].std_dev;
    }
}

#[test]
fn monte_carlo_recovers_mean_with_small_spread() {
    // drawn randomness, but no injected uncertainty: every trial refits
    // the same exact data, so the mean is recovered and the spread stays
    // small (trials differ only in their starting points)
    let entries = linear_entries(0);
    let stats = fit_with_std_dev(&entries, 8, &LinearModel, 200, SgdConfig::default()).unwrap();

    assert_eq!(stats.len(), 1);
    assert!((stats[0].mean - 2 * ONE).abs() <= 1000);
    assert!(stats[0].std_dev <= 1000);
}

#[test]
fn nonzero_uncertainty_produces_spread() {
    // injected noise spreads the refitted slopes
    let entries = linear_entries(ONE);
    let stats = fit_with_std_dev(&entries, 16, &LinearModel, 100, SgdConfig::default()).unwrap();

    assert_eq!(stats.len(), 1);
    assert!(stats[0].std_dev > 0);
}

#[test]
fn failing_trial_aborts_the_estimation() {
    // an immense learning rate diverges within a few steps; the whole
    // estimation fails, with no partial aggregation
    let entries = linear_entries(0);
    let config = SgdConfig { learning_rate: i64::MAX };
    let r = fit_with_std_dev(&entries, 2, &LinearModel, 5, config);
    assert!(matches!(r, Err(FitError::OptimizerFailure)));
}

#[test]
fn extreme_parameters_still_aggregate() {
    // with a zero iteration budget every trial's fit succeeds trivially,
    // so aggregation must too, even at the edge of the range: the mean is
    // carried in 128 bits and cannot overflow
    let entries = linear_entries(0);
    let trials: Vec<TrialInput> = (0..2)
        .map(|_| TrialInput {
            initial: vec![i64::MAX],
            noise: vec![(0, 0); 4],
        })
        .collect();
    let stats = fit_trials(&entries, &trials, &LinearModel, 0, SgdConfig::default()).unwrap();
    assert_eq!(stats[0].mean, i64::MAX);
    assert_eq!(stats[0].std_dev, 0);
}

#[test]
fn data_entries_carry_their_uncertainties() {
    let e = DataEntry::from_pair(3, 4);
    assert_eq!(e.x, (3, SCALE));
    assert_eq!(e.y, (4, SCALE));
    let e = DataEntry::with_uncertainties(1, 2, 3, 4);
    assert_eq!(e.x, (1, 2));
    assert_eq!(e.y, (3, 4));
}
